//! From an endpoint to the addresses that are attempted.
//!
//! A socket address is used as it is, and no resolver is asked. A host
//! name is resolved first; its addresses, each with the port of the
//! endpoint, are the candidates of a connection strategy. A resolver's
//! error ends the whole with that very error.
use vstd::prelude::*;
use crate::addr::{IpAddress, SocketAddress};
use crate::connect::{candidates, candidates_of};
use crate::endpoint::{Endpoint, EndpointError, EndpointView, ToEndpoint};

verus! {

/// What an endpoint asks for first.
#[derive(Clone, Copy, Debug, PartialEq, Eq)]
pub enum Plan<'a> {
    /// Use this address directly.
    Direct(SocketAddress),
    /// Resolve this host name, then attempt its addresses at this port.
    Resolve(&'a str, u16),
}

impl<'a> View for Plan<'a> {
    type V = EndpointView;

    open spec fn view(&self) -> EndpointView {
        match *self {
            Plan::Direct(addr) => EndpointView::SocketAddr(addr),
            Plan::Resolve(host, port) => EndpointView::Host(host@, port),
        }
    }
}

/// The plan for `endpoint`: a socket address is used directly, a host
/// name is resolved.
pub fn if_host_resolve<'a>(endpoint: Endpoint<'a>) -> (plan: Plan<'a>)
    ensures
        plan@ == endpoint@,
        plan is Direct == endpoint is SocketAddr,
{
    match endpoint {
        Endpoint::SocketAddr(addr) => Plan::Direct(addr),
        Endpoint::Host(host, port) => Plan::Resolve(host, port),
    }
}

/// The plan for whatever denotes an endpoint, or why it denotes none.
pub fn plan<'a, T: ToEndpoint<'a>>(target: T) -> (r: Result<Plan<'a>, EndpointError>)
    ensures
        match target.endpoint() {
            Ok(endpoint) => r matches Ok(plan) && plan@ == endpoint && (plan is Direct
                == endpoint is SocketAddr),
            Err(e) => r == Err::<Plan<'a>, EndpointError>(e),
        },
{
    match target.to_endpoint() {
        Ok(endpoint) => Ok(if_host_resolve(endpoint)),
        Err(e) => Err(e),
    }
}

/// What follows the answer of the resolver: the candidates that its
/// addresses give at `port`, in its order, or its error, unchanged.
pub fn resolved<E>(answer: Result<Vec<IpAddress>, E>, port: u16) -> (r: Result<
    Vec<SocketAddress>,
    E,
>)
    ensures
        match answer {
            Ok(ips) => r matches Ok(found) && found@ == candidates_of(ips@, port),
            Err(e) => r == Err::<Vec<SocketAddress>, E>(e),
        },
{
    match answer {
        Ok(ips) => Ok(candidates(&ips, port)),
        Err(e) => Err(e),
    }
}

} // verus!
