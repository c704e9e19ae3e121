use vstd::prelude::*;

verus! {

/// tonic's gRPC `Status`, carried through as an opaque value.
#[verifier::external_type_specification]
#[verifier::external_body]
pub struct ExStatus(tonic::Status);

/// tonic's gRPC status `Code`, a plain enum whose variants Verus reads.
#[verifier::external_type_specification]
pub struct ExCode(tonic::Code);

/// Relies on tonic's `Status::code`, which returns the status code that the
/// status was built with; nothing more is assumed of it.
pub assume_specification[ tonic::Status::code ](s: &tonic::Status) -> tonic::Code;

/// A failed discovery attempt that is known to be permanent.
#[derive(Debug)]
pub enum DiscoveryRejected {
    /// The control plane refused the lookup with the given status.
    Remote(tonic::Status),
    /// A rejection detected locally, with a fixed diagnostic message.
    Message(&'static str),
}

/// One link of a causal error chain, as the classifier sees it.
#[derive(Debug)]
pub enum ErrorLink {
    /// The link is a `DiscoveryRejected` value, of either variant.
    Rejected,
    /// The link is a remote status carrying the given code.
    Status(tonic::Code),
    /// Any other error; the walk goes on to its source.
    Other,
}

/// A status code that marks a lookup as refused for good: the address is not
/// resolvable, or the cluster's state cannot satisfy the request.
pub open spec fn rejecting_code(c: tonic::Code) -> bool {
    c == tonic::Code::InvalidArgument || c == tonic::Code::FailedPrecondition
}

/// The classification of the chain that starts at `links[i]`: the first link
/// that is a rejection or a status decides, and an exhausted chain is not
/// rejected.
pub open spec fn rejected_from(links: Seq<ErrorLink>, i: int) -> bool
    decreases links.len() - i,
{
    if i < 0 || i >= links.len() {
        false
    } else {
        match links[i] {
            ErrorLink::Rejected => true,
            ErrorLink::Status(c) => rejecting_code(c),
            ErrorLink::Other => rejected_from(links, i + 1),
        }
    }
}

pub open spec fn chain_rejected(links: Seq<ErrorLink>) -> bool {
    rejected_from(links, 0)
}

pub fn is_rejecting_code(c: &tonic::Code) -> (r: bool)
    ensures
        r == rejecting_code(*c),
{
    match c {
        tonic::Code::InvalidArgument => true,
        tonic::Code::FailedPrecondition => true,
        _ => false,
    }
}

impl DiscoveryRejected {
    pub fn new(message: &'static str) -> (r: Self)
        ensures
            r == DiscoveryRejected::Message(message),
    {
        DiscoveryRejected::Message(message)
    }

    /// Decides whether the error chain `links` (the error itself first, then
    /// each source in turn) is a permanent discovery rejection.
    pub fn is_rejected(links: &Vec<ErrorLink>) -> (r: bool)
        ensures
            r == chain_rejected(links@),
    {
        let mut i: usize = 0;
        while i < links.len()
            invariant
                i <= links@.len(),
                rejected_from(links@, 0) == rejected_from(links@, i as int),
            decreases links@.len() - i,
        {
            match &links[i] {
                ErrorLink::Rejected => {
                    return true;
                },
                ErrorLink::Status(c) => {
                    return is_rejecting_code(c);
                },
                ErrorLink::Other => {},
            }
            i = i + 1;
        }
        false
    }
}

impl From<tonic::Status> for DiscoveryRejected {
    fn from(s: tonic::Status) -> (r: DiscoveryRejected)
        ensures
            r == DiscoveryRejected::Remote(s),
    {
        DiscoveryRejected::Remote(s)
    }
}

impl vstd::std_specs::convert::FromSpecImpl<tonic::Status> for DiscoveryRejected {
    open spec fn obeys_from_spec() -> bool {
        true
    }

    open spec fn from_spec(s: tonic::Status) -> DiscoveryRejected {
        DiscoveryRejected::Remote(s)
    }
}

/// The chain link that a remote status stands for.
pub fn status_link(s: &tonic::Status) -> (r: ErrorLink)
    ensures
        r is Status,
{
    ErrorLink::Status(s.code())
}

} // verus!
