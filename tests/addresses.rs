use service_profiles::addr::{Addr, NameAddr, SocketAddr};
use service_profiles::{LogicalAddr, LookupAddr, Target};

#[test]
fn name_round_trip() {
    let a = NameAddr::from_str("svc.ns.svc.cluster.local:80").unwrap();
    assert_eq!(a.name(), "svc.ns.svc.cluster.local");
    assert_eq!(a.port(), 80);
    assert_eq!(a.to_text(), "svc.ns.svc.cluster.local:80");
}

#[test]
fn socket_round_trip() {
    let a = SocketAddr::from_str("10.1.2.255:8080").unwrap();
    assert_eq!(a.ip, (10, 1, 2, 255));
    assert_eq!(a.port, 8080);
    assert_eq!(a.to_text(), "10.1.2.255:8080");
}

#[test]
fn lookup_prefers_socket() {
    let a = LookupAddr::from_str("127.0.0.1:4143").unwrap();
    assert!(matches!(a.0, Addr::Socket(_)));
    assert_eq!(a.to_text(), "127.0.0.1:4143");
    assert_eq!(a.debug_text(), "LookupAddr(127.0.0.1:4143)");
    let n = LookupAddr::from_str("web.default:65535").unwrap();
    assert!(matches!(n.0, Addr::Name(_)));
    assert_eq!(n.to_text(), "web.default:65535");
}

#[test]
fn invalid_texts_fail() {
    for s in ["", "svc", "svc:", ":80", "svc:65536", "svc:080", "Svc:80", "a..b:80", ".a:80", "a.:80", "a b:80"] {
        assert!(NameAddr::from_str(s).is_err(), "{s}");
        assert!(LookupAddr::from_str(s).is_err(), "{s}");
    }
    for s in ["1.2.3:80", "1.2.3.256:80", "1.2.3.4.5:80", "01.2.3.4:80", "1.2.3.4"] {
        assert!(SocketAddr::from_str(s).is_err(), "{s}");
    }
}

#[test]
fn logical_addr_text() {
    let a = LogicalAddr::from_str("svc.ns:8080").unwrap();
    assert_eq!(a.to_text(), "svc.ns:8080");
    assert_eq!(a.debug_text(), "LogicalAddr(svc.ns:8080)");
    assert!(LogicalAddr::from_str("10.0.0.1:80").is_err());
    assert!(NameAddr::from_str("10.0.0.1:80").is_err());
    assert!(LogicalAddr::from_str("10.0.0.1.svc:80").is_ok());
    let n: NameAddr = a.clone().into();
    assert_eq!(LogicalAddr::from(n), a);
}

#[test]
fn lookup_addr_conversions() {
    let a = Addr::from_str("svc.ns:80").unwrap();
    let l = LookupAddr::from(a.clone());
    let back: Addr = l.into();
    assert_eq!(back, a);
}

#[test]
fn target_debug_shows_display_form() {
    let t = Target { addr: NameAddr::from_str("svc.ns.svc.cluster.local:80").unwrap(), weight: 3 };
    assert_eq!(t.debug_text(), "Target { addr: svc.ns.svc.cluster.local:80, weight: 3 }");
}
