//! The SOCKS5 wire messages (RFC 1928): greeting, method choice, request and
//! reply, with the address framing they share.
//!
//! Every `read` looks at the bytes received so far. It either names the message
//! and how many bytes it took, or says how many bytes it needs in all before it
//! can go on, or fails as soon as a byte rules the message out. A reader that
//! fetches exactly the missing bytes each time consumes exactly the message.

use vstd::prelude::*;

use crate::address::{
    address_bytes, address_of, lemma_address_of, lemma_address_round_trip,
    DestinationAddress, DestinationView,
};
use crate::error::{AddrError, SocksError};
use crate::ReplayStatus;

pub mod config;

pub use config::Config as SocksConfig;

verus! {

/// Outcome of reading a message from the bytes received so far.
pub enum Decoded<T> {
    /// The message, and how many bytes it took.
    Done(T, usize),
    /// The number of bytes needed in all before reading can go on.
    Need(usize),
}

impl<T: View> View for Decoded<T> {
    type V = Decoded<T::V>;

    open spec fn view(&self) -> Decoded<T::V> {
        match self {
            Decoded::Done(t, n) => Decoded::Done(t@, *n),
            Decoded::Need(n) => Decoded::Need(*n),
        }
    }
}

pub open spec fn outcome<T: View>(r: Result<Decoded<T>, SocksError>) -> Result<Decoded<T::V>, SocksError> {
    match r {
        Ok(d) => Ok(d@),
        Err(e) => Err(e),
    }
}

/// The protocol version; only 5 exists.
#[derive(Debug, Clone, Copy, PartialEq, Eq, Structural)]
pub enum Version {
    V5,
}

impl View for Version {
    type V = Version;

    open spec fn view(&self) -> Version {
        *self
    }
}

pub open spec fn version_read(b: Seq<u8>) -> Result<Decoded<Version>, SocksError> {
    if b.len() == 0 {
        Ok(Decoded::Need(1))
    } else if b[0] == 5 {
        Ok(Decoded::Done(Version::V5, 1))
    } else {
        Err(SocksError::InvalidVersion)
    }
}

impl Version {
    pub fn to_byte(&self) -> (r: u8)
        ensures
            r == 5,
    {
        5
    }

    pub fn read(buf: &[u8]) -> (r: Result<Decoded<Version>, SocksError>)
        ensures
            outcome(r) == version_read(buf@),
    {
        if buf.len() == 0 {
            Ok(Decoded::Need(1))
        } else if buf[0] == 5 {
            Ok(Decoded::Done(Version::V5, 1))
        } else {
            Err(SocksError::InvalidVersion)
        }
    }
}

/// An authentication method; unknown codes are kept as `Other`.
#[derive(Debug, Clone, Copy, PartialEq, Eq, Structural)]
pub enum AuthMethod {
    NoAuth,
    GssApi,
    UsernamePassword,
    NoAcceptableMethod,
    Other(u8),
}

pub open spec fn method_byte(m: AuthMethod) -> u8 {
    match m {
        AuthMethod::NoAuth => 0,
        AuthMethod::GssApi => 1,
        AuthMethod::UsernamePassword => 2,
        AuthMethod::NoAcceptableMethod => 0xff,
        AuthMethod::Other(v) => v,
    }
}

pub open spec fn method_of(b: u8) -> AuthMethod {
    if b == 0 {
        AuthMethod::NoAuth
    } else if b == 1 {
        AuthMethod::GssApi
    } else if b == 2 {
        AuthMethod::UsernamePassword
    } else if b == 0xff {
        AuthMethod::NoAcceptableMethod
    } else {
        AuthMethod::Other(b)
    }
}

/// `Other` holds only codes that have no name of their own.
pub open spec fn canonical_method(m: AuthMethod) -> bool {
    m matches AuthMethod::Other(v) ==> method_of(v) == m
}

impl View for AuthMethod {
    type V = AuthMethod;

    open spec fn view(&self) -> AuthMethod {
        *self
    }
}

pub open spec fn method_read(b: Seq<u8>) -> Result<Decoded<AuthMethod>, SocksError> {
    if b.len() == 0 {
        Ok(Decoded::Need(1))
    } else {
        Ok(Decoded::Done(method_of(b[0]), 1))
    }
}

impl AuthMethod {
    pub fn to_byte(&self) -> (r: u8)
        ensures
            r == method_byte(*self),
    {
        match self {
            AuthMethod::NoAuth => 0,
            AuthMethod::GssApi => 1,
            AuthMethod::UsernamePassword => 2,
            AuthMethod::NoAcceptableMethod => 0xff,
            AuthMethod::Other(v) => *v,
        }
    }

    pub fn from_byte(b: u8) -> (r: AuthMethod)
        ensures
            r == method_of(b),
    {
        if b == 0 {
            AuthMethod::NoAuth
        } else if b == 1 {
            AuthMethod::GssApi
        } else if b == 2 {
            AuthMethod::UsernamePassword
        } else if b == 0xff {
            AuthMethod::NoAcceptableMethod
        } else {
            AuthMethod::Other(b)
        }
    }

    pub fn read(buf: &[u8]) -> (r: Result<Decoded<AuthMethod>, SocksError>)
        ensures
            outcome(r) == method_read(buf@),
    {
        if buf.len() == 0 {
            Ok(Decoded::Need(1))
        } else {
            Ok(Decoded::Done(AuthMethod::from_byte(buf[0]), 1))
        }
    }
}

/// A request command. Only `Connect` is serviced.
#[derive(Debug, Clone, Copy, PartialEq, Eq, Structural)]
pub enum Command {
    Connect,
    Bind,
    UdpAssociate,
}

pub open spec fn command_byte(c: Command) -> u8 {
    match c {
        Command::Connect => 1,
        Command::Bind => 2,
        Command::UdpAssociate => 3,
    }
}

pub open spec fn command_of(b: u8) -> Result<Command, SocksError> {
    if b == 1 {
        Ok(Command::Connect)
    } else if b == 2 {
        Ok(Command::Bind)
    } else if b == 3 {
        Ok(Command::UdpAssociate)
    } else {
        Err(SocksError::CommandNotSupported)
    }
}

impl Command {
    pub fn from(v: u8) -> (r: Result<Command, SocksError>)
        ensures
            r == command_of(v),
    {
        if v == 1 {
            Ok(Command::Connect)
        } else if v == 2 {
            Ok(Command::Bind)
        } else if v == 3 {
            Ok(Command::UdpAssociate)
        } else {
            Err(SocksError::CommandNotSupported)
        }
    }

    pub fn to_byte(&self) -> (r: u8)
        ensures
            r == command_byte(*self),
    {
        match self {
            Command::Connect => 1,
            Command::Bind => 2,
            Command::UdpAssociate => 3,
        }
    }
}

/// A reply code; unknown codes are kept as `Other`.
#[derive(Debug, Clone, Copy, PartialEq, Eq, Structural)]
pub enum Replay {
    Succeeded,
    GeneralSocksServerFailure,
    ConnectionNotAllowedByRuleset,
    NetworkUnreachable,
    HostUnreachable,
    ConnectionRefused,
    TtlExpired,
    CommandNotSupported,
    AddressTypeNotSupported,
    Other(u8),
}

pub open spec fn replay_byte(r: Replay) -> u8 {
    match r {
        Replay::Succeeded => 0,
        Replay::GeneralSocksServerFailure => 1,
        Replay::ConnectionNotAllowedByRuleset => 2,
        Replay::NetworkUnreachable => 3,
        Replay::HostUnreachable => 4,
        Replay::ConnectionRefused => 5,
        Replay::TtlExpired => 6,
        Replay::CommandNotSupported => 7,
        Replay::AddressTypeNotSupported => 8,
        Replay::Other(v) => v,
    }
}

pub open spec fn replay_of(b: u8) -> Replay {
    if b == 0 {
        Replay::Succeeded
    } else if b == 1 {
        Replay::GeneralSocksServerFailure
    } else if b == 2 {
        Replay::ConnectionNotAllowedByRuleset
    } else if b == 3 {
        Replay::NetworkUnreachable
    } else if b == 4 {
        Replay::HostUnreachable
    } else if b == 5 {
        Replay::ConnectionRefused
    } else if b == 6 {
        Replay::TtlExpired
    } else if b == 7 {
        Replay::CommandNotSupported
    } else if b == 8 {
        Replay::AddressTypeNotSupported
    } else {
        Replay::Other(b)
    }
}

/// `Other` holds only codes that have no name of their own.
pub open spec fn canonical_replay(r: Replay) -> bool {
    r matches Replay::Other(v) ==> replay_of(v) == r
}

/// The reply code that stands for a verdict of the host.
pub open spec fn replay_for(s: ReplayStatus) -> Replay {
    match s {
        ReplayStatus::Succeeded => Replay::Succeeded,
        ReplayStatus::GeneralSocksServerFailure => Replay::GeneralSocksServerFailure,
        ReplayStatus::ConnectionNotAllowedByRuleset => Replay::ConnectionNotAllowedByRuleset,
        ReplayStatus::NetworkUnreachable => Replay::NetworkUnreachable,
        ReplayStatus::HostUnreachable => Replay::HostUnreachable,
        ReplayStatus::ConnectionRefused => Replay::ConnectionRefused,
        ReplayStatus::TtlExpired => Replay::TtlExpired,
        ReplayStatus::CommandNotSupported => Replay::CommandNotSupported,
        ReplayStatus::AddressTypeNotSupported => Replay::AddressTypeNotSupported,
    }
}

impl Replay {
    pub fn from(v: u8) -> (r: Replay)
        ensures
            r == replay_of(v),
    {
        if v == 0 {
            Replay::Succeeded
        } else if v == 1 {
            Replay::GeneralSocksServerFailure
        } else if v == 2 {
            Replay::ConnectionNotAllowedByRuleset
        } else if v == 3 {
            Replay::NetworkUnreachable
        } else if v == 4 {
            Replay::HostUnreachable
        } else if v == 5 {
            Replay::ConnectionRefused
        } else if v == 6 {
            Replay::TtlExpired
        } else if v == 7 {
            Replay::CommandNotSupported
        } else if v == 8 {
            Replay::AddressTypeNotSupported
        } else {
            Replay::Other(v)
        }
    }

    pub fn from_status(s: ReplayStatus) -> (r: Replay)
        ensures
            r == replay_for(s),
    {
        match s {
            ReplayStatus::Succeeded => Replay::Succeeded,
            ReplayStatus::GeneralSocksServerFailure => Replay::GeneralSocksServerFailure,
            ReplayStatus::ConnectionNotAllowedByRuleset => Replay::ConnectionNotAllowedByRuleset,
            ReplayStatus::NetworkUnreachable => Replay::NetworkUnreachable,
            ReplayStatus::HostUnreachable => Replay::HostUnreachable,
            ReplayStatus::ConnectionRefused => Replay::ConnectionRefused,
            ReplayStatus::TtlExpired => Replay::TtlExpired,
            ReplayStatus::CommandNotSupported => Replay::CommandNotSupported,
            ReplayStatus::AddressTypeNotSupported => Replay::AddressTypeNotSupported,
        }
    }

    pub fn to_byte(&self) -> (r: u8)
        ensures
            r == replay_byte(*self),
    {
        match self {
            Replay::Succeeded => 0,
            Replay::GeneralSocksServerFailure => 1,
            Replay::ConnectionNotAllowedByRuleset => 2,
            Replay::NetworkUnreachable => 3,
            Replay::HostUnreachable => 4,
            Replay::ConnectionRefused => 5,
            Replay::TtlExpired => 6,
            Replay::CommandNotSupported => 7,
            Replay::AddressTypeNotSupported => 8,
            Replay::Other(v) => *v,
        }
    }
}

/// The address type byte, the length byte of a domain, then the address and port.
pub open spec fn address_frame(d: DestinationView) -> Seq<u8> {
    match d {
        DestinationView::Domain(name, _) => seq![3u8, (address_bytes(d).len() - 2) as u8]
            + address_bytes(d),
        DestinationView::Ip(crate::address::SocketAddress::V4(_, _)) => seq![1u8] + address_bytes(d),
        DestinationView::Ip(crate::address::SocketAddress::V6(_, _)) => seq![4u8] + address_bytes(d),
    }
}

/// An address whose length fits the frame: a domain of at most 255 bytes, or an IP.
pub open spec fn fits_frame(d: DestinationView) -> bool {
    d is Domain ==> address_bytes(d).len() - 2 <= 255
}

pub open spec fn lift_address(r: Result<DestinationView, AddrError>, n: usize) -> Result<
    Decoded<DestinationView>,
    SocksError,
> {
    match r {
        Ok(d) => Ok(Decoded::Done(d, n)),
        Err(e) => Err(SocksError::AddressError(e)),
    }
}

pub open spec fn address_read(b: Seq<u8>) -> Result<Decoded<DestinationView>, SocksError> {
    if b.len() == 0 {
        Ok(Decoded::Need(1))
    } else if b[0] == 1 {
        if b.len() < 7 {
            Ok(Decoded::Need(7))
        } else {
            lift_address(address_of(b.subrange(1, 7), true), 7)
        }
    } else if b[0] == 3 {
        if b.len() < 2 {
            Ok(Decoded::Need(2))
        } else if b.len() < 4 + b[1] {
            Ok(Decoded::Need((4 + b[1]) as usize))
        } else {
            lift_address(address_of(b.subrange(2, 4 + b[1]), false), (4 + b[1]) as usize)
        }
    } else if b[0] == 4 {
        if b.len() < 19 {
            Ok(Decoded::Need(19))
        } else {
            lift_address(address_of(b.subrange(1, 19), true), 19)
        }
    } else {
        Err(SocksError::AddressTypeNotSupported)
    }
}

/// A destination as it stands in requests and replies.
pub struct Address {
    pub addr: DestinationAddress,
}

impl View for Address {
    type V = DestinationView;

    open spec fn view(&self) -> DestinationView {
        self.addr@
    }
}

fn lift_from_bytes(r: Result<DestinationAddress, AddrError>, n: usize) -> (out: Result<Decoded<Address>, SocksError>)
    ensures
        outcome(out) == lift_address(
            match r {
                Ok(d) => Ok(d@),
                Err(e) => Err(e),
            },
            n,
        ),
{
    match r {
        Ok(addr) => Ok(Decoded::Done(Address { addr }, n)),
        Err(e) => Err(SocksError::AddressError(e)),
    }
}

proof fn lemma_from_bytes_outcome(b: Seq<u8>, ip: bool, r: Result<DestinationAddress, AddrError>)
    requires
        match r {
            Ok(d) => crate::address::decoded_from(b, ip, d@),
            Err(e) => !crate::address::decodable(b, ip) && e == AddrError::InvalidAddress,
        },
    ensures
        (match r {
            Ok(d) => Ok(d@),
            Err(e) => Err(e),
        }) == address_of(b, ip),
{
    if let Ok(d) = r {
        lemma_address_of(b, ip, d@);
    }
}

impl Address {
    pub fn from(addr: &DestinationAddress) -> (r: Address)
        ensures
            r@ == addr@,
    {
        Address { addr: addr.duplicate() }
    }

    pub fn read(buf: &[u8]) -> (r: Result<Decoded<Address>, SocksError>)
        ensures
            outcome(r) == address_read(buf@),
    {
        let n = buf.len();
        if n == 0 {
            return Ok(Decoded::Need(1));
        }
        let atyp = buf[0];
        if atyp == 1 {
            if n < 7 {
                return Ok(Decoded::Need(7));
            }
            let sub = &buf[1..7];
            let d = DestinationAddress::from_bytes(sub, true);
            proof {
                lemma_from_bytes_outcome(sub@, true, d);
                assert(sub@ == buf@.subrange(1, 7));
            }
            lift_from_bytes(d, 7)
        } else if atyp == 3 {
            if n < 2 {
                return Ok(Decoded::Need(2));
            }
            let len = buf[1] as usize;
            if n < 4 + len {
                return Ok(Decoded::Need(4 + len));
            }
            let sub = &buf[2..4 + len];
            let d = DestinationAddress::from_bytes(sub, false);
            proof {
                lemma_from_bytes_outcome(sub@, false, d);
                assert(sub@ == buf@.subrange(2, 4 + buf@[1]));
            }
            lift_from_bytes(d, 4 + len)
        } else if atyp == 4 {
            if n < 19 {
                return Ok(Decoded::Need(19));
            }
            let sub = &buf[1..19];
            let d = DestinationAddress::from_bytes(sub, true);
            proof {
                lemma_from_bytes_outcome(sub@, true, d);
                assert(sub@ == buf@.subrange(1, 19));
            }
            lift_from_bytes(d, 19)
        } else {
            Err(SocksError::AddressTypeNotSupported)
        }
    }

    /// The framed address; a domain longer than 255 bytes has no frame.
    pub fn write(&self) -> (r: Result<Vec<u8>, SocksError>)
        ensures
            match r {
                Ok(b) => fits_frame(self@) && b@ == address_frame(self@),
                Err(e) => e == SocksError::InvalidAddress && !fits_frame(self@),
            },
    {
        let body = self.addr.to_bytes();
        let mut out: Vec<u8> = Vec::new();
        match &self.addr {
            DestinationAddress::Domain(_, _) => {
                if body.len() - 2 > 255 {
                    return Err(SocksError::InvalidAddress);
                }
                out.push(3);
                out.push((body.len() - 2) as u8);
            },
            DestinationAddress::Ip(crate::address::SocketAddress::V4(_, _)) => {
                out.push(1);
            },
            DestinationAddress::Ip(crate::address::SocketAddress::V6(_, _)) => {
                out.push(4);
            },
        }
        crate::address::extend_bytes(&mut out, body.as_slice());
        proof {
            assert(out@ =~= address_frame(self@));
        }
        Ok(out)
    }
}

pub open spec fn auth_request_bytes(methods: Seq<AuthMethod>) -> Seq<u8> {
    seq![5u8, methods.len() as u8] + methods.map_values(|m: AuthMethod| method_byte(m))
}

pub open spec fn auth_request_read(b: Seq<u8>) -> Result<Decoded<Seq<AuthMethod>>, SocksError> {
    if b.len() == 0 {
        Ok(Decoded::Need(1))
    } else if b[0] != 5 {
        Err(SocksError::InvalidVersion)
    } else if b.len() < 2 {
        Ok(Decoded::Need(2))
    } else if b.len() < 2 + b[1] {
        Ok(Decoded::Need((2 + b[1]) as usize))
    } else {
        Ok(
            Decoded::Done(
                b.subrange(2, 2 + b[1]).map_values(|x: u8| method_of(x)),
                (2 + b[1]) as usize,
            ),
        )
    }
}

/// The client's greeting: the methods it offers.
pub struct AuthRequest {
    pub version: Version,
    pub methods: Vec<AuthMethod>,
}

impl View for AuthRequest {
    type V = Seq<AuthMethod>;

    open spec fn view(&self) -> Seq<AuthMethod> {
        self.methods@
    }
}

impl AuthRequest {
    /// A greeting offering 1 to 255 methods.
    pub fn new(version: Version, methods: Vec<AuthMethod>) -> (r: Result<Self, SocksError>)
        ensures
            methods@.len() == 0 ==> r == Err::<Self, SocksError>(SocksError::MethodNotProvided),
            methods@.len() > 255 ==> r == Err::<Self, SocksError>(SocksError::TooManyMethods),
            1 <= methods@.len() <= 255 ==> (r matches Ok(q) && q@ == methods@),
    {
        if methods.len() == 0 {
            return Err(SocksError::MethodNotProvided);
        }
        if methods.len() > 255 {
            return Err(SocksError::TooManyMethods);
        }
        Ok(AuthRequest { version, methods })
    }

    pub fn read(buf: &[u8]) -> (r: Result<Decoded<AuthRequest>, SocksError>)
        ensures
            outcome(r) == auth_request_read(buf@),
    {
        let n = buf.len();
        if n == 0 {
            return Ok(Decoded::Need(1));
        }
        if buf[0] != 5 {
            return Err(SocksError::InvalidVersion);
        }
        if n < 2 {
            return Ok(Decoded::Need(2));
        }
        let count = buf[1] as usize;
        if n < 2 + count {
            return Ok(Decoded::Need(2 + count));
        }
        let ghost want = buf@.subrange(2, 2 + count as int).map_values(|x: u8| method_of(x));
        let mut methods: Vec<AuthMethod> = Vec::new();
        let mut i: usize = 0;
        while i < count
            invariant
                0 <= i <= count,
                2 + count <= n,
                n == buf@.len(),
                want == buf@.subrange(2, 2 + count as int).map_values(|x: u8| method_of(x)),
                methods@ == want.subrange(0, i as int),
            decreases count - i,
        {
            methods.push(AuthMethod::from_byte(buf[2 + i]));
            i = i + 1;
            proof {
                assert(methods@ =~= want.subrange(0, i as int));
            }
        }
        proof {
            assert(want.subrange(0, count as int) =~= want);
        }
        Ok(Decoded::Done(AuthRequest { version: Version::V5, methods }, 2 + count))
    }

    /// The greeting on the wire; more than 255 methods do not fit.
    pub fn write(&self) -> (r: Result<Vec<u8>, SocksError>)
        ensures
            match r {
                Ok(b) => self@.len() <= 255 && b@ == auth_request_bytes(self@),
                Err(e) => self@.len() > 255 && e == SocksError::TooManyMethods,
            },
    {
        let count = self.methods.len();
        if count > 255 {
            return Err(SocksError::TooManyMethods);
        }
        let mut out: Vec<u8> = Vec::new();
        out.push(self.version.to_byte());
        out.push(count as u8);
        let mut i: usize = 0;
        while i < count
            invariant
                0 <= i <= count,
                count == self.methods@.len(),
                out@ == seq![5u8, count as u8] + self.methods@.subrange(0, i as int).map_values(
                    |m: AuthMethod| method_byte(m),
                ),
            decreases count - i,
        {
            out.push(self.methods[i].to_byte());
            i = i + 1;
            proof {
                assert(out@ =~= seq![5u8, count as u8] + self.methods@.subrange(0, i as int).map_values(
                    |m: AuthMethod| method_byte(m),
                ));
            }
        }
        proof {
            assert(self.methods@.subrange(0, count as int) =~= self.methods@);
        }
        Ok(out)
    }
}

pub open spec fn auth_response_bytes(m: AuthMethod) -> Seq<u8> {
    seq![5u8, method_byte(m)]
}

pub open spec fn auth_response_read(b: Seq<u8>) -> Result<Decoded<AuthMethod>, SocksError> {
    if b.len() == 0 {
        Ok(Decoded::Need(1))
    } else if b[0] != 5 {
        Err(SocksError::InvalidVersion)
    } else if b.len() < 2 {
        Ok(Decoded::Need(2))
    } else {
        Ok(Decoded::Done(method_of(b[1]), 2))
    }
}

/// The server's choice of method.
pub struct AuthResponse {
    pub version: Version,
    pub method: AuthMethod,
}

impl View for AuthResponse {
    type V = AuthMethod;

    open spec fn view(&self) -> AuthMethod {
        self.method
    }
}

impl AuthResponse {
    pub fn new(version: Version, method: AuthMethod) -> (r: Result<Self, SocksError>)
        ensures
            r matches Ok(a) && a.method == method,
    {
        Ok(AuthResponse { version, method })
    }

    pub fn read(buf: &[u8]) -> (r: Result<Decoded<AuthResponse>, SocksError>)
        ensures
            outcome(r) == auth_response_read(buf@),
    {
        if buf.len() == 0 {
            Ok(Decoded::Need(1))
        } else if buf[0] != 5 {
            Err(SocksError::InvalidVersion)
        } else if buf.len() < 2 {
            Ok(Decoded::Need(2))
        } else {
            Ok(Decoded::Done(AuthResponse { version: Version::V5, method: AuthMethod::from_byte(buf[1]) }, 2))
        }
    }

    pub fn write(&self) -> (r: Vec<u8>)
        ensures
            r@ == auth_response_bytes(self.method),
    {
        let mut out: Vec<u8> = Vec::new();
        out.push(self.version.to_byte());
        out.push(self.method.to_byte());
        proof {
            assert(out@ =~= auth_response_bytes(self.method));
        }
        out
    }
}

/// A header of three bytes (version, code, reserved) then a framed address.
pub open spec fn headed_frame(code: u8, d: DestinationView) -> Seq<u8> {
    seq![5u8, code, 0u8] + address_frame(d)
}

/// Reads the framed address that follows a header of three bytes.
pub open spec fn after_header<T>(b: Seq<u8>, head: T) -> Result<Decoded<(T, DestinationView)>, SocksError> {
    match address_read(b.subrange(3, b.len() as int)) {
        Ok(Decoded::Done(d, k)) => Ok(Decoded::Done((head, d), (3 + k) as usize)),
        Ok(Decoded::Need(k)) => Ok(Decoded::Need((3 + k) as usize)),
        Err(e) => Err(e),
    }
}

pub open spec fn command_request_read(b: Seq<u8>) -> Result<Decoded<(Command, DestinationView)>, SocksError> {
    if b.len() == 0 {
        Ok(Decoded::Need(1))
    } else if b[0] != 5 {
        Err(SocksError::InvalidVersion)
    } else if b.len() < 2 {
        Ok(Decoded::Need(2))
    } else {
        match command_of(b[1]) {
            Err(e) => Err(e),
            Ok(c) => if b.len() < 3 {
                Ok(Decoded::Need(3))
            } else {
                after_header(b, c)
            },
        }
    }
}

pub open spec fn command_response_read(b: Seq<u8>) -> Result<Decoded<(Replay, DestinationView)>, SocksError> {
    if b.len() == 0 {
        Ok(Decoded::Need(1))
    } else if b[0] != 5 {
        Err(SocksError::InvalidVersion)
    } else if b.len() < 3 {
        Ok(Decoded::Need(3))
    } else {
        after_header(b, replay_of(b[1]))
    }
}

/// Reads the framed address at offset 3.
fn read_tail(buf: &[u8]) -> (r: Result<Decoded<Address>, SocksError>)
    requires
        buf@.len() >= 3,
    ensures
        match (r, address_read(buf@.subrange(3, buf@.len() as int))) {
            (Ok(Decoded::Done(a, k)), Ok(Decoded::Done(d, j))) => a@ == d && k == j && 3 + k <= buf@.len(),
            (Ok(Decoded::Need(k)), Ok(Decoded::Need(j))) => k == j && k <= usize::MAX - 3,
            (Err(e), Err(f)) => e == f,
            _ => false,
        },
{
    let tail = &buf[3..buf.len()];
    let r = Address::read(tail);
    proof {
        assert(tail@ == buf@.subrange(3, buf@.len() as int));
    }
    r
}

/// A client's request: a command and a destination.
pub struct CommandRequest {
    pub version: Version,
    pub command: Command,
    pub addr: DestinationAddress,
}

impl View for CommandRequest {
    type V = (Command, DestinationView);

    open spec fn view(&self) -> (Command, DestinationView) {
        (self.command, self.addr@)
    }
}

impl CommandRequest {
    pub fn new(version: Version, command: Command, addr: DestinationAddress) -> (r: Result<Self, SocksError>)
        ensures
            r matches Ok(q) && q@ == (command, addr@),
    {
        Ok(CommandRequest { version, command, addr })
    }

    pub fn read(buf: &[u8]) -> (r: Result<Decoded<CommandRequest>, SocksError>)
        ensures
            outcome(r) == command_request_read(buf@),
    {
        let n = buf.len();
        if n == 0 {
            return Ok(Decoded::Need(1));
        }
        if buf[0] != 5 {
            return Err(SocksError::InvalidVersion);
        }
        if n < 2 {
            return Ok(Decoded::Need(2));
        }
        let command = match Command::from(buf[1]) {
            Ok(c) => c,
            Err(e) => return Err(e),
        };
        if n < 3 {
            return Ok(Decoded::Need(3));
        }
        match read_tail(buf) {
            Ok(Decoded::Done(a, k)) => Ok(
                Decoded::Done(CommandRequest { version: Version::V5, command, addr: a.addr }, 3 + k),
            ),
            Ok(Decoded::Need(k)) => Ok(Decoded::Need(3 + k)),
            Err(e) => Err(e),
        }
    }

    pub fn write(&self) -> (r: Result<Vec<u8>, SocksError>)
        ensures
            match r {
                Ok(b) => fits_frame(self.addr@) && b@ == headed_frame(command_byte(self.command), self.addr@),
                Err(e) => e == SocksError::InvalidAddress && !fits_frame(self.addr@),
            },
    {
        let frame = Address::from(&self.addr).write()?;
        let mut out: Vec<u8> = Vec::new();
        out.push(self.version.to_byte());
        out.push(self.command.to_byte());
        out.push(0);
        crate::address::extend_bytes(&mut out, frame.as_slice());
        proof {
            assert(out@ =~= headed_frame(command_byte(self.command), self.addr@));
        }
        Ok(out)
    }
}

/// A server's reply: a reply code and the bound address.
pub struct CommandResponse {
    pub version: Version,
    pub replay: Replay,
    pub addr: DestinationAddress,
}

impl View for CommandResponse {
    type V = (Replay, DestinationView);

    open spec fn view(&self) -> (Replay, DestinationView) {
        (self.replay, self.addr@)
    }
}

impl CommandResponse {
    pub fn new(version: Version, replay: Replay, addr: DestinationAddress) -> (r: Result<Self, SocksError>)
        ensures
            r matches Ok(q) && q@ == (replay, addr@),
    {
        Ok(CommandResponse { version, replay, addr })
    }

    pub fn read(buf: &[u8]) -> (r: Result<Decoded<CommandResponse>, SocksError>)
        ensures
            outcome(r) == command_response_read(buf@),
    {
        let n = buf.len();
        if n == 0 {
            return Ok(Decoded::Need(1));
        }
        if buf[0] != 5 {
            return Err(SocksError::InvalidVersion);
        }
        if n < 3 {
            return Ok(Decoded::Need(3));
        }
        let replay = Replay::from(buf[1]);
        match read_tail(buf) {
            Ok(Decoded::Done(a, k)) => Ok(
                Decoded::Done(CommandResponse { version: Version::V5, replay, addr: a.addr }, 3 + k),
            ),
            Ok(Decoded::Need(k)) => Ok(Decoded::Need(3 + k)),
            Err(e) => Err(e),
        }
    }

    pub fn write(&self) -> (r: Result<Vec<u8>, SocksError>)
        ensures
            match r {
                Ok(b) => fits_frame(self.addr@) && b@ == headed_frame(replay_byte(self.replay), self.addr@),
                Err(e) => e == SocksError::InvalidAddress && !fits_frame(self.addr@),
            },
    {
        let frame = Address::from(&self.addr).write()?;
        let mut out: Vec<u8> = Vec::new();
        out.push(self.version.to_byte());
        out.push(self.replay.to_byte());
        out.push(0);
        crate::address::extend_bytes(&mut out, frame.as_slice());
        proof {
            assert(out@ =~= headed_frame(replay_byte(self.replay), self.addr@));
        }
        Ok(out)
    }
}

/// Reading a framed address back gives the address, and takes exactly its frame.
pub proof fn lemma_address_frame_round_trip(d: DestinationView, rest: Seq<u8>)
    requires
        fits_frame(d),
    ensures
        address_read(address_frame(d) + rest) == Ok::<Decoded<DestinationView>, SocksError>(
            Decoded::Done(d, address_frame(d).len() as usize),
        ),
{
    let f = address_frame(d);
    let b = f + rest;
    let body = address_bytes(d);
    lemma_address_round_trip(d);
    match d {
        DestinationView::Domain(name, _) => {
            assert(b.subrange(2, 4 + b[1]) =~= body);
            lemma_address_of(body, false, d);
        },
        DestinationView::Ip(crate::address::SocketAddress::V4(_, _)) => {
            assert(b.subrange(1, 7) =~= body);
            lemma_address_of(body, true, d);
        },
        DestinationView::Ip(crate::address::SocketAddress::V6(_, _)) => {
            assert(b.subrange(1, 19) =~= body);
            lemma_address_of(body, true, d);
        },
    }
}

/// Reading a greeting back gives its methods, and takes exactly its bytes.
pub proof fn lemma_auth_request_round_trip(methods: Seq<AuthMethod>, rest: Seq<u8>)
    requires
        methods.len() <= 255,
        forall|i: int| 0 <= i < methods.len() ==> canonical_method(#[trigger] methods[i]),
    ensures
        auth_request_read(auth_request_bytes(methods) + rest) == Ok::<
            Decoded<Seq<AuthMethod>>,
            SocksError,
        >(Decoded::Done(methods, (2 + methods.len()) as usize)),
{
    let b = auth_request_bytes(methods) + rest;
    assert(b[1] == methods.len());
    let back = b.subrange(2, 2 + b[1]).map_values(|x: u8| method_of(x));
    assert forall|i: int| 0 <= i < methods.len() implies back[i] == methods[i] by {
        assert(b[2 + i] == method_byte(methods[i]));
        assert(canonical_method(methods[i]));
    }
    assert(back =~= methods);
}

/// Reading a method choice back gives the method.
pub proof fn lemma_auth_response_round_trip(m: AuthMethod, rest: Seq<u8>)
    requires
        canonical_method(m),
    ensures
        auth_response_read(auth_response_bytes(m) + rest) == Ok::<Decoded<AuthMethod>, SocksError>(
            Decoded::Done(m, 2),
        ),
{
    let b = auth_response_bytes(m) + rest;
    assert(b[0] == 5 && b[1] == method_byte(m));
}

proof fn lemma_after_header<T>(code: u8, head: T, d: DestinationView, rest: Seq<u8>)
    requires
        fits_frame(d),
    ensures
        after_header(headed_frame(code, d) + rest, head) == Ok::<
            Decoded<(T, DestinationView)>,
            SocksError,
        >(Decoded::Done((head, d), (3 + address_frame(d).len()) as usize)),
{
    let b = headed_frame(code, d) + rest;
    assert(b.subrange(3, b.len() as int) =~= address_frame(d) + rest);
    lemma_address_frame_round_trip(d, rest);
}

/// Reading a request back gives its command and destination.
pub proof fn lemma_command_request_round_trip(c: Command, d: DestinationView, rest: Seq<u8>)
    requires
        fits_frame(d),
    ensures
        command_request_read(headed_frame(command_byte(c), d) + rest) == Ok::<
            Decoded<(Command, DestinationView)>,
            SocksError,
        >(Decoded::Done((c, d), headed_frame(command_byte(c), d).len() as usize)),
{
    lemma_after_header(command_byte(c), c, d, rest);
    let b = headed_frame(command_byte(c), d) + rest;
    assert(b[0] == 5 && b[1] == command_byte(c));
}

/// Reading a reply back gives its code and address.
pub proof fn lemma_command_response_round_trip(r: Replay, d: DestinationView, rest: Seq<u8>)
    requires
        canonical_replay(r),
        fits_frame(d),
    ensures
        command_response_read(headed_frame(replay_byte(r), d) + rest) == Ok::<
            Decoded<(Replay, DestinationView)>,
            SocksError,
        >(Decoded::Done((r, d), headed_frame(replay_byte(r), d).len() as usize)),
{
    lemma_after_header(replay_byte(r), r, d, rest);
    let b = headed_frame(replay_byte(r), d) + rest;
    assert(b[0] == 5 && b[1] == replay_byte(r));
}

} // verus!
