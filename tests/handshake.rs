use proxy_stream::address::DestinationAddress;
use proxy_stream::handshake::error_reply;
use proxy_stream::socks5::{
    AuthMethod, AuthRequest, AuthResponse, CommandRequest, CommandResponse, Decoded, Replay,
};
use proxy_stream::{
    ClientInterruptedSocks5Stream, ProxyStreamError, ReplayStatus, SocketAddress, Socks5,
    Socks5Client, Socks5Server, SocksConfig, SocksError,
};

/// A byte pipe standing in for a stream.
#[derive(Debug, PartialEq)]
struct Pipe(Vec<u8>);

fn read_all<T>(r: Result<Decoded<T>, SocksError>) -> (T, usize) {
    match r {
        Ok(Decoded::Done(t, n)) => (t, n),
        _ => panic!("message not complete"),
    }
}

fn greeting_of(methods: &[u8]) -> AuthRequest {
    let mut b = vec![5, methods.len() as u8];
    b.extend_from_slice(methods);
    read_all(AuthRequest::read(&b)).0
}

#[test]
fn server_takes_the_stream_once() {
    let mut server = Socks5::new_server(SocksConfig::default(), Pipe(vec![]));
    assert_eq!(server.take_stream().ok(), Some(Pipe(vec![])));
    assert!(matches!(server.take_stream(), Err(ProxyStreamError::Closed)));
}

#[test]
fn greeting_with_no_auth_is_accepted() {
    let (reply, verdict) = Socks5Server::<Pipe>::negotiate(&greeting_of(&[0]));
    assert_eq!(reply, vec![5, 0]);
    assert_eq!(verdict, Ok(()));
}

#[test]
fn unknown_method_beside_no_auth_is_accepted() {
    // Greeting 05 02 00 02.
    let (request, n) = read_all(AuthRequest::read(&[0x05, 0x02, 0x00, 0x02]));
    assert_eq!(n, 4);
    let (reply, verdict) = Socks5Server::<Pipe>::negotiate(&request);
    assert_eq!(reply, vec![0x05, 0x00]);
    assert_eq!(verdict, Ok(()));
}

#[test]
fn greeting_without_no_auth_is_refused() {
    let (reply, verdict) = Socks5Server::<Pipe>::negotiate(&greeting_of(&[1, 2]));
    assert_eq!(reply, vec![0x05, 0xff]);
    assert_eq!(verdict, Err(SocksError::MethodNotSupported));
    let (reply, verdict) = Socks5Server::<Pipe>::negotiate(&greeting_of(&[]));
    assert_eq!(reply, vec![0x05, 0xff]);
    assert_eq!(verdict, Err(SocksError::MethodNotSupported));
}

#[test]
fn non_connect_command_is_refused() {
    let (request, _) = read_all(CommandRequest::read(&[5, 2, 0, 1, 1, 2, 3, 4, 0, 80]));
    match Socks5Server::interrupt(request, Pipe(vec![])) {
        Err((reply, e, stream)) => {
            assert_eq!(reply, vec![5, 7, 0, 1, 0, 0, 0, 0, 0, 0]);
            assert_eq!(e, SocksError::CommandNotSupported);
            assert_eq!(stream, Pipe(vec![]));
        }
        Ok(_) => panic!("a bind request must be refused"),
    }
}

#[test]
fn error_reply_bytes_for_each_status() {
    let all = [
        (ReplayStatus::Succeeded, 0u8),
        (ReplayStatus::GeneralSocksServerFailure, 1),
        (ReplayStatus::ConnectionNotAllowedByRuleset, 2),
        (ReplayStatus::NetworkUnreachable, 3),
        (ReplayStatus::HostUnreachable, 4),
        (ReplayStatus::ConnectionRefused, 5),
        (ReplayStatus::TtlExpired, 6),
        (ReplayStatus::CommandNotSupported, 7),
        (ReplayStatus::AddressTypeNotSupported, 8),
    ];
    for (s, c) in all {
        assert_eq!(error_reply(s), vec![0x05, c, 0x00, 0x01, 0, 0, 0, 0, 0, 0]);
    }
}

fn interrupted(addr: DestinationAddress) -> proxy_stream::ServerInterruptedSocks5Stream<Pipe> {
    let request = CommandRequest::new(proxy_stream::socks5::Version::V5, proxy_stream::socks5::Command::Connect, addr).unwrap();
    match Socks5Server::interrupt(request, Pipe(vec![1])) {
        Ok(s) => s,
        Err(_) => panic!("connect must be interrupted"),
    }
}

#[test]
fn session_continues_once_with_success() {
    let mut s = interrupted(DestinationAddress::Ip(SocketAddress::V4([1, 2, 3, 4], 80)));
    let (reply, stream) = s.proxied_stream().unwrap();
    assert_eq!(reply, vec![5, 0, 0, 1, 1, 2, 3, 4, 0, 80]);
    assert_eq!(stream, Pipe(vec![1]));
    assert!(matches!(s.proxied_stream(), Err(ProxyStreamError::Closed)));
    assert!(matches!(s.replay_error(ReplayStatus::HostUnreachable), Err(ProxyStreamError::Closed)));
}

#[test]
fn session_continues_once_with_refusal() {
    let mut s = interrupted(DestinationAddress::Domain("example.com".to_string(), 80));
    let (reply, _) = s.replay_error(ReplayStatus::ConnectionRefused).unwrap();
    assert_eq!(reply, vec![5, 5, 0, 1, 0, 0, 0, 0, 0, 0]);
    assert!(matches!(s.replay_error(ReplayStatus::ConnectionRefused), Err(ProxyStreamError::Closed)));
    assert!(matches!(s.proxied_stream(), Err(ProxyStreamError::Closed)));
    assert_eq!(s.addr(), &DestinationAddress::Domain("example.com".to_string(), 80));
}

#[test]
fn success_reply_for_unframable_domain_fails() {
    let mut s = interrupted(DestinationAddress::Domain("a".repeat(300), 80));
    assert!(matches!(s.proxied_stream(), Err(ProxyStreamError::Socks(SocksError::InvalidAddress))));
}

#[test]
fn socks5_new_checks_method_count() {
    assert_eq!(Socks5::new(vec![]).err(), Some(SocksError::MethodNotProvided));
    assert_eq!(Socks5::new(vec![AuthMethod::NoAuth; 256]).err(), Some(SocksError::TooManyMethods));
    assert_eq!(Socks5::new(vec![AuthMethod::NoAuth]).unwrap().auth_method, vec![AuthMethod::NoAuth]);
}

#[test]
fn client_greeting_and_choice() {
    let client = Socks5::new_client(SocksConfig::default(), Pipe(vec![]));
    assert_eq!(client.greeting().unwrap(), vec![5, 1, 0]);
    let yes = AuthResponse::new(proxy_stream::socks5::Version::V5, AuthMethod::NoAuth).unwrap();
    assert_eq!(client.check_choice(&yes), Ok(()));
    let none = AuthResponse::new(proxy_stream::socks5::Version::V5, AuthMethod::NoAcceptableMethod).unwrap();
    assert_eq!(client.check_choice(&none), Err(SocksError::MethodNotSupported));
    let other = AuthResponse::new(proxy_stream::socks5::Version::V5, AuthMethod::GssApi).unwrap();
    assert_eq!(client.check_choice(&other), Err(SocksError::MethodNotSupported));
}

#[test]
fn client_greeting_errors() {
    let empty = SocksConfig { auth_method: vec![] };
    let client = Socks5::new_client(empty, Pipe(vec![]));
    assert_eq!(client.greeting().err(), Some(SocksError::MethodNotProvided));
    let many = SocksConfig { auth_method: vec![AuthMethod::NoAuth; 256] };
    let client = Socks5::new_client(many, Pipe(vec![]));
    assert_eq!(client.greeting().err(), Some(SocksError::TooManyMethods));
}

#[test]
fn client_takes_the_stream_once() {
    let mut client: Socks5Client<Pipe> = Socks5::new_client(SocksConfig::default(), Pipe(vec![9]));
    assert_eq!(client.take_stream().ok(), Some(Pipe(vec![9])));
    assert!(matches!(client.take_stream(), Err(ProxyStreamError::Closed)));
}

#[test]
fn client_reply_codes_map_to_errors() {
    let zero = DestinationAddress::default();
    let cases = [
        (Replay::Succeeded, Ok(())),
        (Replay::GeneralSocksServerFailure, Err(SocksError::GeneralSocksServerFailure)),
        (Replay::ConnectionNotAllowedByRuleset, Err(SocksError::ConnectionNotAllowedByRuleset)),
        (Replay::NetworkUnreachable, Err(SocksError::NetworkUnreachable)),
        (Replay::HostUnreachable, Err(SocksError::HostUnreachable)),
        (Replay::ConnectionRefused, Err(SocksError::ConnectionRefused)),
        (Replay::TtlExpired, Err(SocksError::TtlExpired)),
        (Replay::CommandNotSupported, Err(SocksError::CommandNotSupported)),
        (Replay::AddressTypeNotSupported, Err(SocksError::AddressTypeNotSupported)),
        (Replay::Other(77), Err(SocksError::UnknownReply(77))),
    ];
    for (code, want) in cases {
        let response = CommandResponse::new(proxy_stream::socks5::Version::V5, code, zero.clone()).unwrap();
        assert_eq!(ClientInterruptedSocks5Stream::<Pipe>::check_reply(&response), want);
    }
}

#[test]
fn socks_loopback_scenario() {
    // Client side: greeting.
    let mut client = Socks5::new_client(SocksConfig::default(), Pipe(vec![]));
    let client_stream = client.take_stream().unwrap();
    let greeting = client.greeting().unwrap();
    assert_eq!(greeting, vec![0x05, 0x01, 0x00]);

    // Server side: reads the greeting and answers.
    let mut server = Socks5::new_server(SocksConfig::default(), Pipe(vec![]));
    let server_stream = server.take_stream().unwrap();
    let (request, n) = read_all(AuthRequest::read(&greeting));
    assert_eq!(n, 3);
    let (reply, verdict) = Socks5Server::<Pipe>::negotiate(&request);
    assert_eq!(reply, vec![0x05, 0x00]);
    assert_eq!(verdict, Ok(()));

    // Client: checks the choice, sends its request.
    let (choice, _) = read_all(AuthResponse::read(&reply));
    assert_eq!(client.check_choice(&choice), Ok(()));
    let target = DestinationAddress::parse("example.com:80", None).unwrap();
    let session = Socks5Client::interrupt(target, client_stream);
    let request_bytes = session.request().unwrap();
    let mut want = vec![0x05, 0x01, 0x00, 0x03, 0x0B];
    want.extend_from_slice(b"example.com");
    want.extend_from_slice(&[0x00, 0x50]);
    assert_eq!(request_bytes, want);

    // Server: reads the request and stops at the destination.
    let (command, used) = read_all(CommandRequest::read(&request_bytes));
    assert_eq!(used, request_bytes.len());
    let mut interrupted = match Socks5Server::interrupt(command, server_stream) {
        Ok(s) => s,
        Err(_) => panic!("connect must be interrupted"),
    };
    assert_eq!(interrupted.addr(), &DestinationAddress::Domain("example.com".to_string(), 80));

    // Host accepts: the success reply carries the destination.
    let (success, _) = interrupted.proxied_stream().unwrap();
    let (response, _) = read_all(CommandResponse::read(&success));
    assert_eq!(response.replay, Replay::Succeeded);
    assert_eq!(response.addr, DestinationAddress::Domain("example.com".to_string(), 80));
    assert_eq!(ClientInterruptedSocks5Stream::<Pipe>::check_reply(&response), Ok(()));
}

#[test]
fn socks_host_unreachable_scenario() {
    let mut server = Socks5::new_server(SocksConfig::default(), Pipe(vec![]));
    let server_stream = server.take_stream().unwrap();
    let (request, _) = read_all(AuthRequest::read(&[5, 1, 0]));
    assert_eq!(Socks5Server::<Pipe>::negotiate(&request).0, vec![5, 0]);
    let mut bytes = vec![0x05, 0x01, 0x00, 0x03, 0x0B];
    bytes.extend_from_slice(b"example.com");
    bytes.extend_from_slice(&[0x00, 0x50]);
    let (command, _) = read_all(CommandRequest::read(&bytes));
    let mut interrupted = match Socks5Server::interrupt(command, server_stream) {
        Ok(s) => s,
        Err(_) => panic!("connect must be interrupted"),
    };
    let (reply, _) = interrupted.replay_error(ReplayStatus::HostUnreachable).unwrap();
    assert_eq!(reply, vec![0x05, 0x04, 0x00, 0x01, 0x00, 0x00, 0x00, 0x00, 0x00, 0x00]);
    let (response, n) = read_all(CommandResponse::read(&reply));
    assert_eq!(n, 10);
    assert_eq!(
        ClientInterruptedSocks5Stream::<Pipe>::check_reply(&response),
        Err(SocksError::HostUnreachable)
    );
}

#[test]
fn client_proxied_stream_follows_reply_code() {
    let target = DestinationAddress::Domain("example.com".to_string(), 80);
    let zero = DestinationAddress::default();
    let ok = CommandResponse::new(proxy_stream::socks5::Version::V5, Replay::Succeeded, zero.clone()).unwrap();
    let session = Socks5Client::interrupt(target.clone(), Pipe(vec![3]));
    assert_eq!(session.proxied_stream(&ok).ok(), Some(Pipe(vec![3])));
    let refused = CommandResponse::new(proxy_stream::socks5::Version::V5, Replay::HostUnreachable, zero).unwrap();
    let session = Socks5Client::interrupt(target, Pipe(vec![3]));
    assert!(matches!(
        session.proxied_stream(&refused),
        Err(ProxyStreamError::Socks(SocksError::HostUnreachable))
    ));
}

#[test]
fn server_accepts_empty_domain_request() {
    let (command, _) = read_all(CommandRequest::read(&[5, 1, 0, 3, 0, 0, 80]));
    let s = match Socks5Server::interrupt(command, Pipe(vec![])) {
        Ok(s) => s,
        Err(_) => panic!("connect must be interrupted"),
    };
    assert_eq!(s.addr(), &DestinationAddress::Domain(String::new(), 80));
}
