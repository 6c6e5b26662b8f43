//! SOCKS5 and HTTP CONNECT proxy protocols, client and server, without I/O:
//! address and message codecs, the handshake state machines with their
//! interruption point, and the HTTP request classification.

use vstd::prelude::*;

pub mod address;
pub mod error;
pub mod handshake;
pub mod http;
pub mod socks5;

pub use address::{DestinationAddress, SocketAddress};
pub use error::{AddrError, HttpError, ProxyStreamError, SocksError};
pub use handshake::{
    ClientInterruptedSocks5Stream, ServerInterruptedSocks5Stream, Socks5, Socks5Client,
    Socks5Server,
};
pub use http::{Http, HttpClient, HttpConfig};
pub use socks5::SocksConfig;

verus! {

/// The verdict of the host application on an interrupted session.
#[derive(Debug, Clone, Copy, PartialEq, Eq, Structural)]
pub enum ReplayStatus {
    Succeeded,
    GeneralSocksServerFailure,
    ConnectionNotAllowedByRuleset,
    NetworkUnreachable,
    HostUnreachable,
    ConnectionRefused,
    TtlExpired,
    CommandNotSupported,
    AddressTypeNotSupported,
}

} // verus!
