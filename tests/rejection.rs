use service_profiles::rejected::{status_link, DiscoveryRejected, ErrorLink};
use tonic::{Code, Status};

#[test]
fn rejected_message_alone() {
    let chain = vec![ErrorLink::Rejected];
    assert!(DiscoveryRejected::is_rejected(&chain));
}

#[test]
fn wrapped_invalid_argument_is_rejected() {
    let chain = vec![ErrorLink::Other, ErrorLink::Status(Code::InvalidArgument)];
    assert!(DiscoveryRejected::is_rejected(&chain));
}

#[test]
fn failed_precondition_is_rejected() {
    let chain = vec![ErrorLink::Status(Code::FailedPrecondition)];
    assert!(DiscoveryRejected::is_rejected(&chain));
}

#[test]
fn unavailable_stops_the_walk() {
    let chain = vec![ErrorLink::Status(Code::Unavailable)];
    assert!(!DiscoveryRejected::is_rejected(&chain));
    let deeper = vec![ErrorLink::Status(Code::Unavailable), ErrorLink::Rejected];
    assert!(!DiscoveryRejected::is_rejected(&deeper));
}

#[test]
fn rejection_found_at_depth_three() {
    let chain = vec![ErrorLink::Other, ErrorLink::Other, ErrorLink::Rejected];
    assert!(DiscoveryRejected::is_rejected(&chain));
}

#[test]
fn plain_wrapper_is_not_rejected() {
    assert!(!DiscoveryRejected::is_rejected(&vec![ErrorLink::Other]));
    assert!(!DiscoveryRejected::is_rejected(&vec![]));
}

#[test]
fn status_link_carries_the_code() {
    let link = status_link(&Status::new(Code::InvalidArgument, "bad name"));
    assert!(matches!(link, ErrorLink::Status(Code::InvalidArgument)));
    assert!(DiscoveryRejected::is_rejected(&vec![ErrorLink::Other, link]));
    let link = status_link(&Status::new(Code::Unavailable, "later"));
    assert!(!DiscoveryRejected::is_rejected(&vec![link]));
}

#[test]
fn new_builds_a_message() {
    assert!(matches!(DiscoveryRejected::new("x"), DiscoveryRejected::Message("x")));
    let remote = DiscoveryRejected::from(Status::new(Code::NotFound, "gone"));
    assert!(matches!(remote, DiscoveryRejected::Remote(s) if s.code() == Code::NotFound));
}
