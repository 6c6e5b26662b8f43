use proxy_stream::address::DestinationAddress;
use proxy_stream::http::{host_with_default_port, request_target};
use proxy_stream::{Http, HttpClient, HttpConfig, ProxyStreamError, ReplayStatus};

#[test]
fn status_codes() {
    let table = [
        (ReplayStatus::Succeeded, 200u16),
        (ReplayStatus::GeneralSocksServerFailure, 500),
        (ReplayStatus::ConnectionNotAllowedByRuleset, 403),
        (ReplayStatus::NetworkUnreachable, 502),
        (ReplayStatus::HostUnreachable, 502),
        (ReplayStatus::ConnectionRefused, 502),
        (ReplayStatus::TtlExpired, 504),
        (ReplayStatus::CommandNotSupported, 501),
        (ReplayStatus::AddressTypeNotSupported, 501),
    ];
    for (s, code) in table {
        assert_eq!(s.to_status_code(), code);
    }
}

#[test]
fn host_gets_port_80() {
    assert_eq!(host_with_default_port("example.com"), "example.com:80");
    assert_eq!(host_with_default_port("example.com:8080"), "example.com:8080");
}

#[test]
fn connect_target_rules() {
    assert_eq!(
        request_target(true, Some("example.com:443"), Some("example.com:443")),
        Some("example.com:443".to_string())
    );
    assert_eq!(request_target(true, Some("example.com:443"), None), Some("example.com:443".to_string()));
    // A Host without port means port 80, which conflicts with 443.
    assert_eq!(request_target(true, Some("example.com:443"), Some("example.com")), None);
    assert_eq!(request_target(true, Some("example.com:80"), Some("example.com")), Some("example.com:80".to_string()));
    assert_eq!(request_target(true, Some("example.com:443"), Some("other.com:443")), None);
    assert_eq!(request_target(true, None, Some("example.com:443")), None);
}

#[test]
fn forward_target_rules() {
    assert_eq!(request_target(false, None, Some("example.com")), Some("example.com:80".to_string()));
    assert_eq!(request_target(false, Some("ignored:1"), Some("a.b:81")), Some("a.b:81".to_string()));
    assert_eq!(request_target(false, Some("example.com:80"), None), None);
}

#[test]
fn http_connect_scenario() {
    // CONNECT example.com:443 HTTP/1.1, Host: example.com:443
    let target = request_target(true, Some("example.com:443"), Some("example.com:443")).unwrap();
    let dest = DestinationAddress::parse(&target, None).unwrap();
    assert_eq!(dest, DestinationAddress::Domain("example.com".to_string(), 443));
    assert_eq!(ReplayStatus::Succeeded.to_status_code(), 200);
}

#[test]
fn http_connect_rejection_scenario() {
    let target = request_target(true, Some("example.com:443"), Some("example.com:443")).unwrap();
    assert!(DestinationAddress::parse(&target, None).is_ok());
    assert_eq!(ReplayStatus::ConnectionNotAllowedByRuleset.to_status_code(), 403);
}

#[test]
fn forward_proxy_scenario() {
    // GET http://example.com/ HTTP/1.1, Host: example.com
    let target = request_target(false, Some("example.com"), Some("example.com")).unwrap();
    let dest = DestinationAddress::parse(&target, None).unwrap();
    assert_eq!(dest, DestinationAddress::Domain("example.com".to_string(), 80));
}

#[test]
fn bad_connect_target_is_refused() {
    let target = request_target(true, Some("-bad-.com:443"), None).unwrap();
    assert!(DestinationAddress::parse(&target, None).is_err());
}

#[test]
fn http_client_takes_stream_once() {
    let mut c: HttpClient<u8> = Http::new_client(HttpConfig::default(), 7u8);
    assert_eq!(c.take_stream().ok(), Some(7));
    assert!(matches!(c.take_stream(), Err(ProxyStreamError::Closed)));
}

#[test]
fn connect_accepts_2xx_only() {
    assert!(HttpClient::<u8>::connect_accepted(200));
    assert!(HttpClient::<u8>::connect_accepted(299));
    assert!(!HttpClient::<u8>::connect_accepted(199));
    assert!(!HttpClient::<u8>::connect_accepted(300));
    assert!(!HttpClient::<u8>::connect_accepted(403));
}
