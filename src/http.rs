//! The HTTP proxy side: which destination a request names, and which status
//! answers a verdict of the host.

use vstd::prelude::*;

use crate::error::ProxyStreamError;
use crate::ReplayStatus;

pub mod config;

pub use config::Config as HttpConfig;

verus! {

/// Entry point of the HTTP side of the library.
pub struct Http;

/// The client end of a connection to an HTTP proxy.
pub struct HttpClient<T> {
    config: HttpConfig,
    stream: Option<T>,
}

/// The HTTP status that answers a verdict of the host.
pub open spec fn status_code(s: ReplayStatus) -> u16 {
    match s {
        ReplayStatus::Succeeded => 200,
        ReplayStatus::GeneralSocksServerFailure => 500,
        ReplayStatus::ConnectionNotAllowedByRuleset => 403,
        ReplayStatus::NetworkUnreachable => 502,
        ReplayStatus::HostUnreachable => 502,
        ReplayStatus::ConnectionRefused => 502,
        ReplayStatus::TtlExpired => 504,
        ReplayStatus::CommandNotSupported => 501,
        ReplayStatus::AddressTypeNotSupported => 501,
    }
}

/// A `Host` value with port 80 added when it names none.
pub open spec fn with_default_port(h: Seq<char>) -> Seq<char> {
    if h.contains(':') {
        h
    } else {
        h + seq![':', '8', '0']
    }
}

/// The `host:port` text that a request names as its destination. A CONNECT
/// names its authority, which must match the `Host` header when there is one;
/// any other request names its `Host` header.
pub open spec fn target_of(is_connect: bool, authority: Option<Seq<char>>, host: Option<Seq<char>>) -> Option<
    Seq<char>,
> {
    if is_connect {
        match (authority, host) {
            (Some(a), None) => Some(a),
            (Some(a), Some(h)) => if a == with_default_port(h) {
                Some(a)
            } else {
                None
            },
            (None, _) => None,
        }
    } else {
        match host {
            Some(h) => Some(with_default_port(h)),
            None => None,
        }
    }
}

pub open spec fn text_view(s: Option<&str>) -> Option<Seq<char>> {
    match s {
        Some(t) => Some(t@),
        None => None,
    }
}

impl ReplayStatus {
    pub fn to_status_code(&self) -> (r: u16)
        ensures
            r == status_code(*self),
    {
        match self {
            ReplayStatus::Succeeded => 200,
            ReplayStatus::GeneralSocksServerFailure => 500,
            ReplayStatus::ConnectionNotAllowedByRuleset => 403,
            ReplayStatus::NetworkUnreachable => 502,
            ReplayStatus::HostUnreachable => 502,
            ReplayStatus::ConnectionRefused => 502,
            ReplayStatus::TtlExpired => 504,
            ReplayStatus::CommandNotSupported => 501,
            ReplayStatus::AddressTypeNotSupported => 501,
        }
    }
}

fn has_colon(s: &str) -> (r: bool)
    ensures
        r == s@.contains(':'),
{
    let n = s.unicode_len();
    let mut i: usize = 0;
    while i < n
        invariant
            0 <= i <= n,
            n == s@.len(),
            forall|j: int| 0 <= j < i ==> s@[j] != ':',
        decreases n - i,
    {
        if s.get_char(i) == ':' {
            return true;
        }
        i = i + 1;
    }
    false
}

/// A `Host` value with port 80 added when it names none.
pub fn host_with_default_port(host: &str) -> (r: String)
    ensures
        r@ == with_default_port(host@),
{
    let mut r = host.to_owned();
    if !has_colon(host) {
        r.append(":80");
        proof {
            reveal_strlit(":80");
            assert(r@ =~= with_default_port(host@));
        }
    }
    r
}

/// The `host:port` text that a request names as its destination, from its
/// method, the authority of its target and its `Host` header. `None` means
/// the request is refused with 400.
pub fn request_target(is_connect: bool, authority: Option<&str>, host: Option<&str>) -> (r: Option<String>)
    ensures
        match r {
            Some(t) => target_of(is_connect, text_view(authority), text_view(host)) == Some(t@),
            None => target_of(is_connect, text_view(authority), text_view(host)) is None,
        },
{
    if is_connect {
        match authority {
            None => None,
            Some(a) => match host {
                None => Some(a.to_owned()),
                Some(h) => {
                    let expected = host_with_default_port(h);
                    let given = a.to_owned();
                    if given == expected {
                        Some(given)
                    } else {
                        None
                    }
                },
            },
        }
    } else {
        match host {
            Some(h) => Some(host_with_default_port(h)),
            None => None,
        }
    }
}

impl Http {
    pub fn new_client<T>(config: HttpConfig, socket_stream: T) -> (r: HttpClient<T>)
        ensures
            r.settings() == config,
            r.pending_stream() == Some(socket_stream),
    {
        HttpClient { config, stream: Some(socket_stream) }
    }
}

impl<T> HttpClient<T> {
    /// The stream to the proxy, until `connect` takes it.
    pub closed spec fn pending_stream(&self) -> Option<T> {
        self.stream
    }

    /// The settings the end was made with.
    pub closed spec fn settings(&self) -> HttpConfig {
        self.config
    }

    /// Takes the stream to the proxy; a client connects once.
    pub fn take_stream(&mut self) -> (r: Result<T, ProxyStreamError>)
        ensures
            final(self).settings() == old(self).settings(),
            final(self).pending_stream() is None,
            match old(self).pending_stream() {
                Some(s) => r matches Ok(t) && t == s,
                None => r matches Err(ProxyStreamError::Closed),
            },
    {
        match self.stream.take() {
            Some(s) => Ok(s),
            None => Err(ProxyStreamError::Closed),
        }
    }

    /// Whether the proxy's answer to CONNECT opens the tunnel: any 2xx status.
    pub fn connect_accepted(status: u16) -> (r: bool)
        ensures
            r == (200 <= status <= 299),
    {
        200 <= status && status <= 299
    }
}

} // verus!
