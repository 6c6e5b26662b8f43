//! The SOCKS5 handshake, client and server side, as decisions on the messages
//! read. The caller moves the bytes; these functions say which bytes to send
//! and how the session goes on.
//!
//! A server session stops after the client has named its destination: the
//! interrupted session waits for the host to continue it, once.

use vstd::prelude::*;

use crate::address::{DestinationAddress, DestinationView, SocketAddress};
use crate::error::{ProxyStreamError, SocksError};
use crate::socks5::{
    auth_request_bytes, auth_request_read, canonical_method, canonical_replay, command_request_read,
    command_response_read, fits_frame, headed_frame, lemma_auth_request_round_trip,
    lemma_command_request_round_trip, lemma_command_response_round_trip, Decoded, replay_byte, replay_for, AuthMethod,
    AuthRequest, AuthResponse, Command, CommandRequest, CommandResponse, Replay, SocksConfig,
    Version,
};
use crate::ReplayStatus;

verus! {

/// A list of 1 to 255 authentication methods to offer; its associated
/// functions make the client and server ends of a connection.
pub struct Socks5 {
    pub auth_method: Vec<AuthMethod>,
}

/// The client end of a connection to a SOCKS5 server.
pub struct Socks5Client<T> {
    config: SocksConfig,
    socket_stream: Option<T>,
}

/// The server end of a connection from a SOCKS5 client.
pub struct Socks5Server<T> {
    config: SocksConfig,
    socket_stream: Option<T>,
}

/// The reply to a greeting: "no authentication" when offered, else "no acceptable method".
pub open spec fn method_reply(offered: Seq<AuthMethod>) -> Seq<u8> {
    if offered.contains(AuthMethod::NoAuth) {
        seq![5u8, 0u8]
    } else {
        seq![5u8, 0xffu8]
    }
}

/// The reply that refuses a request: the code and the address `0.0.0.0:0`.
pub open spec fn error_reply_bytes(code: u8) -> Seq<u8> {
    seq![5u8, code, 0u8, 1u8, 0u8, 0u8, 0u8, 0u8, 0u8, 0u8]
}

/// The error a client reports for a reply code other than success.
pub open spec fn reply_error_kind(r: Replay) -> SocksError {
    match r {
        Replay::Succeeded => SocksError::GeneralSocksServerFailure,
        Replay::GeneralSocksServerFailure => SocksError::GeneralSocksServerFailure,
        Replay::ConnectionNotAllowedByRuleset => SocksError::ConnectionNotAllowedByRuleset,
        Replay::NetworkUnreachable => SocksError::NetworkUnreachable,
        Replay::HostUnreachable => SocksError::HostUnreachable,
        Replay::ConnectionRefused => SocksError::ConnectionRefused,
        Replay::TtlExpired => SocksError::TtlExpired,
        Replay::CommandNotSupported => SocksError::CommandNotSupported,
        Replay::AddressTypeNotSupported => SocksError::AddressTypeNotSupported,
        Replay::Other(v) => SocksError::UnknownReply(v),
    }
}

/// What a client makes of a reply code.
pub open spec fn reply_outcome(r: Replay) -> Result<(), SocksError> {
    if r == Replay::Succeeded {
        Ok(())
    } else {
        Err(reply_error_kind(r))
    }
}

/// What a client makes of the server's choice of method among those it offered.
pub open spec fn choice_outcome(offered: Seq<AuthMethod>, chosen: AuthMethod) -> Result<(), SocksError> {
    if chosen == AuthMethod::NoAcceptableMethod || !offered.contains(chosen) {
        Err(SocksError::MethodNotSupported)
    } else {
        Ok(())
    }
}

/// The reply that refuses a request, for a verdict of the host.
pub fn error_reply(status: ReplayStatus) -> (r: Vec<u8>)
    ensures
        r@ == error_reply_bytes(replay_byte(replay_for(status))),
{
    let code = Replay::from_status(status).to_byte();
    let mut out: Vec<u8> = Vec::new();
    out.push(5);
    out.push(code);
    out.push(0);
    out.push(1);
    out.push(0);
    out.push(0);
    out.push(0);
    out.push(0);
    out.push(0);
    out.push(0);
    proof {
        assert(out@ =~= error_reply_bytes(replay_byte(replay_for(status))));
    }
    out
}

/// Whether the list holds the method.
fn contains_method(methods: &Vec<AuthMethod>, m: AuthMethod) -> (r: bool)
    ensures
        r == methods@.contains(m),
{
    let mut i: usize = 0;
    while i < methods.len()
        invariant
            0 <= i <= methods@.len(),
            forall|j: int| 0 <= j < i ==> methods@[j] != m,
        decreases methods@.len() - i,
    {
        if methods[i] == m {
            return true;
        }
        i = i + 1;
    }
    false
}

impl Socks5 {
    /// A method list for a client: 1 to 255 methods.
    pub fn new(auth_method: Vec<AuthMethod>) -> (r: Result<Self, SocksError>)
        ensures
            auth_method@.len() == 0 ==> r == Err::<Self, SocksError>(SocksError::MethodNotProvided),
            auth_method@.len() > 255 ==> r == Err::<Self, SocksError>(SocksError::TooManyMethods),
            1 <= auth_method@.len() <= 255 ==> (r matches Ok(s) && s.auth_method@ == auth_method@),
    {
        if auth_method.len() == 0 {
            Err(SocksError::MethodNotProvided)
        } else if auth_method.len() > 255 {
            Err(SocksError::TooManyMethods)
        } else {
            Ok(Socks5 { auth_method })
        }
    }

    pub fn new_client<T>(config: SocksConfig, socket_stream: T) -> (r: Socks5Client<T>)
        ensures
            r.settings() == config,
            r.pending_stream() == Some(socket_stream),
    {
        Socks5Client { config, socket_stream: Some(socket_stream) }
    }

    pub fn new_server<T>(config: SocksConfig, socket_stream: T) -> (r: Socks5Server<T>)
        ensures
            r.settings() == config,
            r.pending_stream() == Some(socket_stream),
    {
        Socks5Server { config, socket_stream: Some(socket_stream) }
    }
}

impl<T> Socks5Server<T> {
    /// The client stream, until the handshake takes it.
    pub closed spec fn pending_stream(&self) -> Option<T> {
        self.socket_stream
    }

    /// The settings the end was made with.
    pub closed spec fn settings(&self) -> SocksConfig {
        self.config
    }

    /// Takes the client stream for the handshake; a server accepts once.
    pub fn take_stream(&mut self) -> (r: Result<T, ProxyStreamError>)
        ensures
            final(self).settings() == old(self).settings(),
            final(self).pending_stream() is None,
            match old(self).pending_stream() {
                Some(s) => r matches Ok(t) && t == s,
                None => r matches Err(ProxyStreamError::Closed),
            },
    {
        match self.socket_stream.take() {
            Some(s) => Ok(s),
            None => Err(ProxyStreamError::Closed),
        }
    }

    /// The reply to the client's greeting, and whether the handshake goes on:
    /// it stops with `MethodNotSupported` when "no authentication" is not offered.
    pub fn negotiate(request: &AuthRequest) -> (r: (Vec<u8>, Result<(), SocksError>))
        ensures
            r.0@ == method_reply(request@),
            r.1 == (if request@.contains(AuthMethod::NoAuth) {
                Ok::<(), SocksError>(())
            } else {
                Err(SocksError::MethodNotSupported)
            }),
    {
        if contains_method(&request.methods, AuthMethod::NoAuth) {
            let reply = AuthResponse { version: Version::V5, method: AuthMethod::NoAuth }.write();
            proof {
                assert(reply@ =~= method_reply(request@));
            }
            (reply, Ok(()))
        } else {
            let reply = AuthResponse { version: Version::V5, method: AuthMethod::NoAcceptableMethod }.write();
            proof {
                assert(reply@ =~= method_reply(request@));
            }
            (reply, Err(SocksError::MethodNotSupported))
        }
    }

    /// Stops the handshake at the client's request. A `Connect` becomes an
    /// interrupted session for the host; any other command is refused with the
    /// returned reply and `CommandNotSupported`.
    pub fn interrupt(request: CommandRequest, socket: T) -> (r: Result<
        ServerInterruptedSocks5Stream<T>,
        (Vec<u8>, SocksError, T),
    >)
        ensures
            request.command == Command::Connect ==> (r matches Ok(s) && s.destination() == request.addr@
                && s.pending_socket() == Some(socket)),
            request.command != Command::Connect ==> (r matches Err(e) && e.0@ == error_reply_bytes(7)
                && e.1 == SocksError::CommandNotSupported && e.2 == socket),
    {
        match request.command {
            Command::Connect => Ok(ServerInterruptedSocks5Stream { addr: request.addr, socket: Some(socket) }),
            _ => Err((error_reply(ReplayStatus::CommandNotSupported), SocksError::CommandNotSupported, socket)),
        }
    }
}

/// A server session paused after the client named its destination. It is
/// continued once, by `proxied_stream` or `replay_error`; after that it is closed.
pub struct ServerInterruptedSocks5Stream<T> {
    addr: DestinationAddress,
    socket: Option<T>,
}

impl<T> ServerInterruptedSocks5Stream<T> {
    /// The destination the client asked for.
    pub closed spec fn destination(&self) -> DestinationView {
        self.addr@
    }

    /// The client stream, until the session is continued.
    pub closed spec fn pending_socket(&self) -> Option<T> {
        self.socket
    }

    pub fn addr(&self) -> (r: &DestinationAddress)
        ensures
            r@ == self.destination(),
    {
        &self.addr
    }

    /// Whether the session has been continued.
    pub open spec fn is_closed(&self) -> bool {
        self.pending_socket() is None
    }

    /// Continues with success: the reply that carries the destination, and the
    /// client stream, now a tunnel. A destination without a frame fails with
    /// `InvalidAddress` and closes the session.
    pub fn proxied_stream(&mut self) -> (r: Result<(Vec<u8>, T), ProxyStreamError>)
        ensures
            final(self).destination() == old(self).destination(),
            final(self).is_closed(),
            old(self).is_closed() ==> r matches Err(ProxyStreamError::Closed),
            !old(self).is_closed() && fits_frame(old(self).destination()) ==> (r matches Ok(
                p,
            ) && p.0@ == headed_frame(0, old(self).destination()) && Some(p.1) == old(self).pending_socket()),
            !old(self).is_closed() && !fits_frame(old(self).destination()) ==> r matches Err(
                ProxyStreamError::Socks(SocksError::InvalidAddress),
            ),
    {
        let socket = match self.socket.take() {
            Some(s) => s,
            None => return Err(ProxyStreamError::Closed),
        };
        let response = CommandResponse {
            version: Version::V5,
            replay: Replay::Succeeded,
            addr: self.addr.duplicate(),
        };
        match response.write() {
            Ok(b) => Ok((b, socket)),
            Err(e) => Err(ProxyStreamError::Socks(e)),
        }
    }

    /// Continues with a refusal: the reply with the code of `error` and the
    /// address `0.0.0.0:0`, and the client stream, to be closed once it is sent.
    pub fn replay_error(&mut self, error: ReplayStatus) -> (r: Result<(Vec<u8>, T), ProxyStreamError>)
        ensures
            final(self).destination() == old(self).destination(),
            final(self).is_closed(),
            old(self).is_closed() ==> r matches Err(ProxyStreamError::Closed),
            !old(self).is_closed() ==> (r matches Ok(p) && p.0@ == error_reply_bytes(
                replay_byte(replay_for(error)),
            ) && Some(p.1) == old(self).pending_socket()),
    {
        let socket = match self.socket.take() {
            Some(s) => s,
            None => return Err(ProxyStreamError::Closed),
        };
        Ok((error_reply(error), socket))
    }
}

impl<T> Socks5Client<T> {
    /// The stream to the server, until the handshake takes it.
    pub closed spec fn pending_stream(&self) -> Option<T> {
        self.socket_stream
    }

    /// The settings the end was made with.
    pub closed spec fn settings(&self) -> SocksConfig {
        self.config
    }

    /// Takes the stream to the server for the handshake; a client connects once.
    pub fn take_stream(&mut self) -> (r: Result<T, ProxyStreamError>)
        ensures
            final(self).settings() == old(self).settings(),
            final(self).pending_stream() is None,
            match old(self).pending_stream() {
                Some(s) => r matches Ok(t) && t == s,
                None => r matches Err(ProxyStreamError::Closed),
            },
    {
        match self.socket_stream.take() {
            Some(s) => Ok(s),
            None => Err(ProxyStreamError::Closed),
        }
    }

    /// The greeting offering the configured methods.
    pub fn greeting(&self) -> (r: Result<Vec<u8>, SocksError>)
        ensures
            self.settings().auth_method@.len() == 0 ==> r == Err::<Vec<u8>, SocksError>(
                SocksError::MethodNotProvided,
            ),
            self.settings().auth_method@.len() > 255 ==> r == Err::<Vec<u8>, SocksError>(
                SocksError::TooManyMethods,
            ),
            1 <= self.settings().auth_method@.len() <= 255 ==> (r matches Ok(b) && b@ == auth_request_bytes(
                self.settings().auth_method@,
            )),
    {
        let methods = clone_methods(&self.config.auth_method);
        let request = AuthRequest::new(Version::V5, methods)?;
        request.write()
    }

    /// Checks the server's choice of method: it must be one of those offered.
    pub fn check_choice(&self, response: &AuthResponse) -> (r: Result<(), SocksError>)
        ensures
            r == choice_outcome(self.settings().auth_method@, response.method),
    {
        if response.method == AuthMethod::NoAcceptableMethod
            || !contains_method(&self.config.auth_method, response.method) {
            Err(SocksError::MethodNotSupported)
        } else {
            Ok(())
        }
    }

    /// After the method is agreed: the session that will ask for `addr`.
    pub fn interrupt(addr: DestinationAddress, socket: T) -> (r: ClientInterruptedSocks5Stream<T>)
        ensures
            r.addr@ == addr@,
            r.socket == socket,
    {
        ClientInterruptedSocks5Stream { addr, socket }
    }
}

fn clone_methods(methods: &Vec<AuthMethod>) -> (r: Vec<AuthMethod>)
    ensures
        r@ == methods@,
{
    let mut out: Vec<AuthMethod> = Vec::new();
    let mut i: usize = 0;
    while i < methods.len()
        invariant
            0 <= i <= methods@.len(),
            out@ == methods@.subrange(0, i as int),
        decreases methods@.len() - i,
    {
        out.push(methods[i]);
        i = i + 1;
        proof {
            assert(out@ =~= methods@.subrange(0, i as int));
        }
    }
    proof {
        assert(methods@.subrange(0, methods@.len() as int) =~= methods@);
    }
    out
}

/// A client session whose method is agreed, before its request is sent.
pub struct ClientInterruptedSocks5Stream<T> {
    pub addr: DestinationAddress,
    pub socket: T,
}

impl<T> ClientInterruptedSocks5Stream<T> {
    /// The `Connect` request for the destination.
    pub fn request(&self) -> (r: Result<Vec<u8>, SocksError>)
        ensures
            fits_frame(self.addr@) ==> (r matches Ok(b) && b@ == headed_frame(1, self.addr@)),
            !fits_frame(self.addr@) ==> r == Err::<Vec<u8>, SocksError>(SocksError::InvalidAddress),
    {
        let request = CommandRequest { version: Version::V5, command: Command::Connect, addr: self.addr.duplicate() };
        request.write()
    }

    /// Ends the handshake on the server's reply: success hands back the stream,
    /// now a tunnel; any other code is the matching error.
    pub fn proxied_stream(self, response: &CommandResponse) -> (r: Result<T, ProxyStreamError>)
        ensures
            response.replay == Replay::Succeeded ==> (r matches Ok(s) && s == self.socket),
            response.replay != Replay::Succeeded ==> (r matches Err(ProxyStreamError::Socks(e))
                && e == reply_error_kind(response.replay)),
    {
        match Self::check_reply(response) {
            Ok(()) => Ok(self.socket),
            Err(e) => Err(ProxyStreamError::Socks(e)),
        }
    }

    /// Checks the server's reply: success opens the tunnel, any other code is
    /// the matching error.
    pub fn check_reply(response: &CommandResponse) -> (r: Result<(), SocksError>)
        ensures
            r == reply_outcome(response.replay),
    {
        match response.replay {
            Replay::Succeeded => Ok(()),
            Replay::GeneralSocksServerFailure => Err(SocksError::GeneralSocksServerFailure),
            Replay::ConnectionNotAllowedByRuleset => Err(SocksError::ConnectionNotAllowedByRuleset),
            Replay::NetworkUnreachable => Err(SocksError::NetworkUnreachable),
            Replay::HostUnreachable => Err(SocksError::HostUnreachable),
            Replay::ConnectionRefused => Err(SocksError::ConnectionRefused),
            Replay::TtlExpired => Err(SocksError::TtlExpired),
            Replay::CommandNotSupported => Err(SocksError::CommandNotSupported),
            Replay::AddressTypeNotSupported => Err(SocksError::AddressTypeNotSupported),
            Replay::Other(v) => Err(SocksError::UnknownReply(v)),
        }
    }
}

/// On the server: a greeting followed by a `Connect` request is read back as
/// the methods and the destination the client sent. When the methods include
/// "no authentication" the reply is `05 00` and the session stops at that
/// destination; otherwise the reply is `05 FF` and the handshake fails with
/// `MethodNotSupported`.
pub proof fn lemma_server_accept(methods: Seq<AuthMethod>, d: DestinationView, rest: Seq<u8>)
    requires
        methods.len() <= 255,
        forall|i: int| 0 <= i < methods.len() ==> canonical_method(#[trigger] methods[i]),
        fits_frame(d),
    ensures
        auth_request_read(auth_request_bytes(methods) + (headed_frame(1, d) + rest)) == Ok::<
            Decoded<Seq<AuthMethod>>,
            SocksError,
        >(Decoded::Done(methods, (2 + methods.len()) as usize)),
        command_request_read(headed_frame(1, d) + rest) == Ok::<
            Decoded<(Command, DestinationView)>,
            SocksError,
        >(Decoded::Done((Command::Connect, d), headed_frame(1, d).len() as usize)),
        methods.contains(AuthMethod::NoAuth) ==> method_reply(methods) == seq![5u8, 0u8],
        !methods.contains(AuthMethod::NoAuth) ==> method_reply(methods) == seq![5u8, 0xffu8],
{
    lemma_auth_request_round_trip(methods, headed_frame(1, d) + rest);
    lemma_command_request_round_trip(Command::Connect, d, rest);
}

/// On the client: the server's reply is read back as its code, and the
/// handshake succeeds exactly when that code is `Succeeded`; any other code
/// fails with the error of that code.
pub proof fn lemma_client_reply(r: Replay, d: DestinationView, rest: Seq<u8>)
    requires
        canonical_replay(r),
        fits_frame(d),
    ensures
        command_response_read(headed_frame(replay_byte(r), d) + rest) == Ok::<
            Decoded<(Replay, DestinationView)>,
            SocksError,
        >(Decoded::Done((r, d), headed_frame(replay_byte(r), d).len() as usize)),
        (reply_outcome(r) is Ok) == (r == Replay::Succeeded),
        r != Replay::Succeeded ==> reply_outcome(r) == Err::<(), SocksError>(reply_error_kind(r)),
{
    lemma_command_response_round_trip(r, d, rest);
}

/// A refusal written by a server is read by a client as a reply with the
/// code of the verdict, and the client fails with the error of that code.
pub proof fn lemma_refusal_reaches_client(status: ReplayStatus, rest: Seq<u8>)
    requires
        status != ReplayStatus::Succeeded,
    ensures
        command_response_read(error_reply_bytes(replay_byte(replay_for(status))) + rest) matches Ok(
            Decoded::Done((code, _), n),
        ) && code == replay_for(status) && n == 10,
        reply_outcome(replay_for(status)) == Err::<(), SocksError>(reply_error_kind(replay_for(status))),
{
    let b = error_reply_bytes(replay_byte(replay_for(status))) + rest;
    let octets: [u8; 4] = vstd::array::spec_array_fill_for_copy_type(0u8);
    vstd::array::axiom_spec_array_fill_for_copy_type::<u8, 4>(0u8);
    let zero = DestinationView::Ip(SocketAddress::V4(octets, 0));
    assert(b.subrange(4, 10) =~= seq![0u8, 0u8, 0u8, 0u8, 0u8, 0u8]);
    assert(crate::address::decoded_from(b.subrange(4, 10), true, zero)) by {
        if let DestinationView::Ip(SocketAddress::V4(a, _)) = zero {
            assert(a@ =~= seq![0u8, 0u8, 0u8, 0u8]);
            assert(a@ =~= b.subrange(4, 10).subrange(0, 4));
        }
    }
    crate::address::lemma_address_of(b.subrange(4, 10), true, zero);
    assert(b.subrange(3, b.len() as int).subrange(1, 7) =~= b.subrange(4, 10));
}

} // verus!
