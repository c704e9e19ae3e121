use vstd::prelude::*;

pub mod addr;
pub mod cursor;
pub mod handle;
pub mod rejected;
pub mod text;

use crate::addr::{addr_parses_as, addr_text, name_text, parse_name, parse_socket, Addr, InvalidAddr, NameAddr, SocketAddr};
use crate::text::{decimal, push_decimal};
use tokio::sync::watch::Receiver as WatchReceiver;

verus! {

/// tokio's `watch::Receiver`, the reading end of a latest-value channel,
/// carried through as an opaque value.
#[verifier::external_type_specification]
#[verifier::external_body]
#[verifier::reject_recursive_types(T)]
pub struct ExWatchReceiver<T>(WatchReceiver<T>);

/// Relies on tokio's `Clone` for `watch::Receiver`: a new receiver of the same
/// channel; nothing is assumed of it.
pub assume_specification<T>[ <WatchReceiver<T> as std::clone::Clone>::clone ](
    rx: &WatchReceiver<T>,
) -> WatchReceiver<T>;

/// A profile lookup target.
#[derive(Clone, Debug, Hash, Eq, PartialEq)]
pub struct LookupAddr(pub Addr);

/// A bound logical service address.
#[derive(Clone, Debug, Hash, Eq, PartialEq)]
pub struct LogicalAddr(pub NameAddr);

/// A weighted backend used for traffic splitting.
#[derive(Clone, Debug)]
pub struct Target {
    pub addr: NameAddr,
    pub weight: u32,
}

/// A request-matching rule of an HTTP route, carried as written.
#[derive(Clone, Debug, PartialEq, Eq, Hash)]
pub struct RequestMatch(pub String);

/// The route that a matching request takes, carried as written.
#[derive(Clone, Debug, PartialEq, Eq, Hash)]
pub struct Route(pub String);

/// What discovery knows of an endpoint that a lookup resolved to directly.
#[derive(Clone, Debug, PartialEq, Eq, Hash)]
pub struct Metadata {
    pub labels: Vec<(String, String)>,
}

/// A snapshot of the routing configuration of one destination.
#[derive(Clone, Debug)]
pub struct Profile {
    pub addr: Option<LogicalAddr>,
    pub http_routes: Vec<(RequestMatch, Route)>,
    pub targets: Vec<Target>,
    pub opaque_protocol: bool,
    pub endpoint: Option<(SocketAddr, Metadata)>,
}

/// A share in the lifetime of a cached subscription: the subscription stays
/// wanted while any clone of it is alive.
#[derive(Clone, Debug)]
pub struct Handle(std::sync::Arc<()>);

/// Watches a destination's profile.
#[derive(Clone, Debug)]
pub struct Receiver {
    inner: WatchReceiver<Profile>,
    handle: Option<Handle>,
}

impl Default for Profile {
    fn default() -> (r: Profile)
        ensures
            r.addr is None,
            r.http_routes@.len() == 0,
            r.targets@.len() == 0,
            !r.opaque_protocol,
            r.endpoint is None,
    {
        Profile {
            addr: None,
            http_routes: Vec::new(),
            targets: Vec::new(),
            opaque_protocol: false,
            endpoint: None,
        }
    }
}

/// Relies on tokio's `watch::Receiver::borrow`, which reads the most recently
/// published value without waiting; which value that is depends on timing,
/// so nothing is assumed of it.
#[verifier::external_body]
fn latest(rx: &WatchReceiver<Profile>) -> Profile {
    rx.borrow().clone()
}

impl Handle {
    pub fn new() -> Handle {
        Handle(std::sync::Arc::new(()))
    }
}

impl Profile {
    /// The bound logical address, taken out of the snapshot.
    pub fn into_addr(self) -> (r: Option<LogicalAddr>)
        ensures
            r == self.addr,
    {
        self.addr
    }

    /// The opaque-protocol flag of the snapshot.
    pub fn into_opaque_protocol(self) -> (r: bool)
        ensures
            r == self.opaque_protocol,
    {
        self.opaque_protocol
    }

    /// The directly resolved endpoint, taken out of the snapshot.
    pub fn into_endpoint(self) -> (r: Option<(SocketAddr, Metadata)>)
        ensures
            r == self.endpoint,
    {
        self.endpoint
    }

    /// The weighted targets, taken out of the snapshot in their order.
    pub fn into_targets(self) -> (r: Vec<Target>)
        ensures
            r == self.targets,
    {
        self.targets
    }
}

impl Receiver {
    /// A receiver of the channel `inner` whose subscription is kept alive by
    /// `handle`.
    pub fn new(inner: WatchReceiver<Profile>, handle: Handle) -> (r: Self)
        ensures
            r.channel() == inner,
            r.held() == Some(handle),
    {
        Receiver { inner, handle: Some(handle) }
    }

    /// Creates a receiver suitable for tests: it reads the channel `inner`
    /// and holds no share of any cache's subscription.
    pub fn for_test(inner: WatchReceiver<Profile>) -> (r: Self)
        ensures
            r.channel() == inner,
            r.held() is None,
    {
        Receiver { inner, handle: None }
    }

    /// The channel whose latest profile the receiver reads.
    pub closed spec fn channel(&self) -> WatchReceiver<Profile> {
        self.inner
    }

    /// The share of a cached subscription's lifetime that the receiver holds.
    pub closed spec fn held(&self) -> Option<Handle> {
        self.handle
    }

    pub fn has_handle(&self) -> (r: bool)
        ensures
            r == self.held() is Some,
    {
        self.handle.is_some()
    }

    /// The bound address of the latest profile on the channel.
    pub fn logical_addr(&self) -> Option<LogicalAddr> {
        latest(&self.inner).into_addr()
    }

    /// The opaque-protocol flag of the latest profile on the channel.
    pub fn is_opaque_protocol(&self) -> bool {
        latest(&self.inner).into_opaque_protocol()
    }

    /// The resolved endpoint of the latest profile on the channel.
    pub fn endpoint(&self) -> Option<(SocketAddr, Metadata)> {
        latest(&self.inner).into_endpoint()
    }

    /// The weighted targets of the latest profile on the channel.
    pub fn targets(&self) -> Vec<Target> {
        latest(&self.inner).into_targets()
    }

    /// The watched channel and the lifetime share, for adapting the receiver
    /// into a stream of profiles.
    pub fn into_parts(self) -> (r: (WatchReceiver<Profile>, Option<Handle>))
        ensures
            r.0 == self.channel(),
            r.1 == self.held(),
    {
        (self.inner, self.handle)
    }
}

impl LookupAddr {
    pub fn from_str(s: &str) -> (r: Result<LookupAddr, InvalidAddr>)
        ensures
            match r {
                Ok(a) => addr_parses_as(s@, a.0),
                Err(_) => parse_socket(s@) is None && parse_name(s@) is None,
            },
    {
        match Addr::from_str(s) {
            Ok(a) => Ok(LookupAddr(a)),
            Err(e) => Err(e),
        }
    }

    /// The address's display text.
    pub fn to_text(&self) -> (r: String)
        ensures
            r@ == addr_text(self.0),
    {
        self.0.to_text()
    }

    /// The address's debug text, `LookupAddr(<text>)`.
    pub fn debug_text(&self) -> (r: String)
        ensures
            r@ == "LookupAddr("@ + addr_text(self.0) + ")"@,
    {
        let mut out = String::from_str("LookupAddr(");
        out.append(self.0.to_text().as_str());
        out.append(")");
        out
    }
}

impl From<Addr> for LookupAddr {
    fn from(a: Addr) -> (r: LookupAddr)
        ensures
            r == LookupAddr(a),
    {
        LookupAddr(a)
    }
}

impl vstd::std_specs::convert::FromSpecImpl<Addr> for LookupAddr {
    open spec fn obeys_from_spec() -> bool {
        true
    }

    open spec fn from_spec(a: Addr) -> LookupAddr {
        LookupAddr(a)
    }
}

impl From<LookupAddr> for Addr {
    fn from(a: LookupAddr) -> (r: Addr)
        ensures
            r == a.0,
    {
        a.0
    }
}

impl vstd::std_specs::convert::FromSpecImpl<LookupAddr> for Addr {
    open spec fn obeys_from_spec() -> bool {
        true
    }

    open spec fn from_spec(a: LookupAddr) -> Addr {
        a.0
    }
}

impl LogicalAddr {
    pub fn from_str(s: &str) -> (r: Result<LogicalAddr, InvalidAddr>)
        ensures
            match r {
                Ok(a) => a.0.wf() && parse_name(s@) == Some(a.0@),
                Err(_) => parse_name(s@) is None,
            },
    {
        match NameAddr::from_str(s) {
            Ok(a) => Ok(LogicalAddr(a)),
            Err(e) => Err(e),
        }
    }

    /// The address's display text.
    pub fn to_text(&self) -> (r: String)
        ensures
            r@ == name_text(self.0@.0, self.0@.1),
    {
        self.0.to_text()
    }

    /// The address's debug text, `LogicalAddr(<text>)`.
    pub fn debug_text(&self) -> (r: String)
        ensures
            r@ == "LogicalAddr("@ + name_text(self.0@.0, self.0@.1) + ")"@,
    {
        let mut out = String::from_str("LogicalAddr(");
        out.append(self.0.to_text().as_str());
        out.append(")");
        out
    }
}

impl From<NameAddr> for LogicalAddr {
    fn from(a: NameAddr) -> (r: LogicalAddr)
        ensures
            r == LogicalAddr(a),
    {
        LogicalAddr(a)
    }
}

impl vstd::std_specs::convert::FromSpecImpl<NameAddr> for LogicalAddr {
    open spec fn obeys_from_spec() -> bool {
        true
    }

    open spec fn from_spec(a: NameAddr) -> LogicalAddr {
        LogicalAddr(a)
    }
}

impl From<LogicalAddr> for NameAddr {
    fn from(a: LogicalAddr) -> (r: NameAddr)
        ensures
            r == a.0,
    {
        a.0
    }
}

impl vstd::std_specs::convert::FromSpecImpl<LogicalAddr> for NameAddr {
    open spec fn obeys_from_spec() -> bool {
        true
    }

    open spec fn from_spec(a: LogicalAddr) -> NameAddr {
        a.0
    }
}

impl Target {
    /// The debug text, which shows the address in its display form:
    /// `Target { addr: <name:port>, weight: <weight> }`.
    pub fn debug_text(&self) -> (r: String)
        ensures
            r@ == "Target { addr: "@ + name_text(self.addr@.0, self.addr@.1) + ", weight: "@
                + decimal(self.weight as nat) + " }"@,
    {
        let mut out = String::from_str("Target { addr: ");
        out.append(self.addr.to_text().as_str());
        out.append(", weight: ");
        push_decimal(&mut out, self.weight);
        out.append(" }");
        out
    }
}

} // verus!
