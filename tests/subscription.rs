use service_profiles::addr::NameAddr;
use service_profiles::cursor::VersionCursor;
use service_profiles::handle::HandleCount;
use service_profiles::{Handle, LogicalAddr, Profile, Receiver, Target};

#[test]
fn default_profile_is_empty() {
    let p = Profile::default();
    assert!(p.addr.is_none());
    assert!(p.http_routes.is_empty());
    assert!(p.targets.is_empty());
    assert!(!p.opaque_protocol);
    assert!(p.endpoint.is_none());
}

#[test]
fn receiver_reads_latest() {
    let (tx, rx) = tokio::sync::watch::channel(Profile::default());
    let r = Receiver::for_test(rx);
    assert!(!r.has_handle());
    assert!(r.logical_addr().is_none());
    assert!(!r.is_opaque_protocol());
    assert!(r.endpoint().is_none());
    let mut p = Profile::default();
    p.addr = Some(LogicalAddr::from_str("svc.ns:80").unwrap());
    p.opaque_protocol = true;
    p.targets = vec![Target { addr: NameAddr::from_str("a.ns:80").unwrap(), weight: 7 }];
    tx.send(p).unwrap();
    assert_eq!(r.logical_addr(), Some(LogicalAddr::from_str("svc.ns:80").unwrap()));
    assert!(r.is_opaque_protocol());
    assert_eq!(r.targets().len(), 1);
    assert_eq!(r.targets()[0].weight, 7);
}

#[test]
fn cached_receiver_keeps_handle() {
    let (_tx, rx) = tokio::sync::watch::channel(Profile::default());
    let r = Receiver::new(rx, Handle::new());
    assert!(r.has_handle());
    let r2 = r.clone();
    let (_, h) = r2.into_parts();
    assert!(h.is_some());
}

#[test]
fn last_drop_notifies_once() {
    let mut c = HandleCount::new();
    c.acquire();
    c.acquire();
    assert_eq!(c.holders(), 3);
    assert!(!c.release());
    c.acquire();
    assert!(!c.release());
    assert!(!c.release());
    assert!(c.release());
    assert_eq!(c.holders(), 0);
}

#[test]
fn cursor_skips_stale_versions() {
    let mut c = VersionCursor::new();
    assert!(c.observe(1));
    assert!(!c.observe(1));
    assert!(c.observe(3));
    assert!(!c.observe(2));
    assert_eq!(c.seen(), 3);
    assert!(!c.observe(3));
}

#[test]
fn fresh_receiver_reads_default_profile() {
    let (_tx, rx) = tokio::sync::watch::channel(Profile::default());
    let r = Receiver::for_test(rx);
    assert_eq!(r.logical_addr(), None);
    assert!(!r.is_opaque_protocol());
    assert!(r.endpoint().is_none());
    assert!(r.targets().is_empty());
}

#[test]
fn profile_fields_come_out_unchanged() {
    let mut p = Profile::default();
    p.targets = vec![
        Target { addr: NameAddr::from_str("a.ns:80").unwrap(), weight: 2 },
        Target { addr: NameAddr::from_str("b.ns:81").unwrap(), weight: 5 },
    ];
    p.opaque_protocol = true;
    assert!(p.clone().into_opaque_protocol());
    assert!(p.clone().into_addr().is_none());
    assert!(p.clone().into_endpoint().is_none());
    let ts = p.into_targets();
    assert_eq!(ts.len(), 2);
    assert_eq!(ts[1].addr.to_text(), "b.ns:81");
    assert_eq!(ts[1].weight, 5);
}
