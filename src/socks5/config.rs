//! Settings of a SOCKS5 endpoint.

use vstd::prelude::*;

use super::AuthMethod;

verus! {

/// The authentication methods that an endpoint offers.
pub struct Config {
    pub auth_method: Vec<AuthMethod>,
}

impl Config {
    /// Only "no authentication required".
    pub fn default() -> (r: Self)
        ensures
            r.auth_method@ == seq![AuthMethod::NoAuth],
    {
        let mut methods: Vec<AuthMethod> = Vec::new();
        methods.push(AuthMethod::NoAuth);
        Config { auth_method: methods }
    }
}

} // verus!
