//! Settings of an HTTP proxy endpoint.

use vstd::prelude::*;

verus! {

/// The authentication an HTTP proxy endpoint asks for; only none exists.
#[derive(Debug, Clone, Copy, PartialEq, Eq, Structural)]
pub enum AuthMethod {
    NoAuth,
}

pub struct Config {
    pub auth_method: AuthMethod,
}

impl Config {
    /// No authentication.
    pub fn default() -> (r: Self)
        ensures
            r.auth_method == AuthMethod::NoAuth,
    {
        Config { auth_method: AuthMethod::NoAuth }
    }
}

} // verus!
