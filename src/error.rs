//! Error kinds of the library.

use vstd::prelude::*;

verus! {

/// An I/O failure of the underlying byte stream, carried through unchanged.
#[verifier::external_type_specification]
#[verifier::external_body]
pub struct ExIoError(std::io::Error);

/// A failure reported by the HTTP stack, carried through unchanged.
#[verifier::external_type_specification]
#[verifier::external_body]
pub struct ExHyperError(hyper::Error);

#[derive(Debug, Clone, Copy, PartialEq, Eq, Structural)]
pub enum AddrError {
    InvalidAddress,
}

#[derive(Debug, Clone, Copy, PartialEq, Eq, Structural)]
pub enum SocksError {
    InvalidVersion,
    CommandNotSupported,
    MethodNotSupported,
    MethodNotProvided,
    TooManyMethods,
    InvalidAddress,
    AddressTypeNotSupported,
    GeneralSocksServerFailure,
    ConnectionNotAllowedByRuleset,
    NetworkUnreachable,
    HostUnreachable,
    ConnectionRefused,
    TtlExpired,
    UnknownReply(u8),
    AddressError(AddrError),
}

#[derive(Debug)]
pub enum HttpError {
    BuildHttpReq,
    CreateHttpReq,
    SendHttpReq,
    SendHttpRes,
    UpgradeHttpReq(hyper::Error),
}

#[derive(Debug)]
pub enum ProxyStreamError {
    Address(AddrError),
    Http(HttpError),
    Socks(SocksError),
    IO(std::io::Error),
    Closed,
}

impl AddrError {
    /// The text of the error.
    pub fn message(&self) -> (r: &'static str)
        ensures
            r@ == "InvalidAddress"@,
    {
        "InvalidAddress"
    }
}

pub open spec fn socks_error_text(e: SocksError) -> Seq<char> {
    match e {
        SocksError::InvalidVersion => "Invalid Version"@,
        SocksError::CommandNotSupported => "Command not supported"@,
        SocksError::MethodNotSupported => "Method not supported"@,
        SocksError::MethodNotProvided => "Method not provided"@,
        SocksError::TooManyMethods => "Too many methods provided"@,
        SocksError::InvalidAddress => "Invalid Address"@,
        SocksError::AddressTypeNotSupported => "Address type not supported"@,
        SocksError::GeneralSocksServerFailure => "General socks server failure"@,
        SocksError::ConnectionNotAllowedByRuleset => "Connection not allowed by ruleset"@,
        SocksError::NetworkUnreachable => "Network unreachable"@,
        SocksError::HostUnreachable => "Host unreachable"@,
        SocksError::ConnectionRefused => "Connection refused"@,
        SocksError::TtlExpired => "TTL expired"@,
        SocksError::UnknownReply(_) => "Unknown reply"@,
        SocksError::AddressError(_) => "AddressError: InvalidAddress"@,
    }
}

impl SocksError {
    /// The text of the error.
    pub fn message(&self) -> (r: &'static str)
        ensures
            r@ == socks_error_text(*self),
    {
        match self {
            SocksError::InvalidVersion => "Invalid Version",
            SocksError::CommandNotSupported => "Command not supported",
            SocksError::MethodNotSupported => "Method not supported",
            SocksError::MethodNotProvided => "Method not provided",
            SocksError::TooManyMethods => "Too many methods provided",
            SocksError::InvalidAddress => "Invalid Address",
            SocksError::AddressTypeNotSupported => "Address type not supported",
            SocksError::GeneralSocksServerFailure => "General socks server failure",
            SocksError::ConnectionNotAllowedByRuleset => "Connection not allowed by ruleset",
            SocksError::NetworkUnreachable => "Network unreachable",
            SocksError::HostUnreachable => "Host unreachable",
            SocksError::ConnectionRefused => "Connection refused",
            SocksError::TtlExpired => "TTL expired",
            SocksError::UnknownReply(_) => "Unknown reply",
            SocksError::AddressError(_) => "AddressError: InvalidAddress",
        }
    }
}

} // verus!
