//! Resolvers: what is asked of a lookup and what is made of its answer.
//!
//! A resolver turns a host name into addresses some time later. The
//! lookup itself happens elsewhere; here is what is handed to it and how
//! its answer, or the lack of one, becomes the result of the resolver.
use vstd::prelude::*;
use vstd::string::StringExecFns;
use crate::addr::{IpAddress, SocketAddress};

verus! {

/// How many workers the resolver that is used by default has.
pub const DEFAULT_POOL_SIZE: usize = 5;

/// Why a resolver gave no addresses.
#[derive(Debug, PartialEq, Eq)]
pub enum ResolveError<E> {
    /// The lookup failed with this error.
    ResolutionFailed(E),
    /// The worker that made the lookup went away before it answered.
    Interrupted,
    /// The request was given up before a reply completed it.
    Cancelled,
}

/// The addresses of `found`, in its order.
pub open spec fn addresses_of(found: Seq<SocketAddress>) -> Seq<IpAddress> {
    found.map_values(|a: SocketAddress| a.address())
}

/// What is handed to the system lookup for `host`: the host name with a
/// port of zero behind it.
pub fn lookup_name(host: &str) -> (r: String)
    ensures
        r@ == host@ + seq![':', '0'],
{
    proof {
        reveal_strlit(":0");
        assert(":0"@ =~= seq![':', '0']);
    }
    String::from_str(host).concat(":0")
}

/// The addresses of `found`, in its order.
pub fn addresses(found: &Vec<SocketAddress>) -> (r: Vec<IpAddress>)
    ensures
        r@ == addresses_of(found@),
{
    let mut r: Vec<IpAddress> = Vec::new();
    let mut i: usize = 0;
    while i < found.len()
        invariant
            i <= found.len(),
            r@ == addresses_of(found@.take(i as int)),
        decreases found.len() - i,
    {
        proof {
            assert(addresses_of(found@.take(i as int)).push(found@[i as int].address())
                =~= addresses_of(found@.take(i + 1)));
        }
        r.push(found[i].ip());
        i += 1;
    }
    proof {
        assert(found@.take(i as int) =~= found@);
    }
    r
}

/// The result of a lookup that a worker made: the addresses it found, in
/// the order of the system; its error; or `Interrupted` where the worker
/// went away and `answer` is none.
pub fn pool_result<E>(answer: Option<Result<Vec<SocketAddress>, E>>) -> (r: Result<
    Vec<IpAddress>,
    ResolveError<E>,
>)
    ensures
        match answer {
            Some(Ok(found)) => r matches Ok(ips) && ips@ == addresses_of(found@),
            Some(Err(e)) => r == Err::<Vec<IpAddress>, ResolveError<E>>(
                ResolveError::ResolutionFailed(e),
            ),
            None => r == Err::<Vec<IpAddress>, ResolveError<E>>(ResolveError::Interrupted),
        },
{
    match answer {
        Some(Ok(found)) => Ok(addresses(&found)),
        Some(Err(e)) => Err(ResolveError::ResolutionFailed(e)),
        None => Err(ResolveError::Interrupted),
    }
}

/// The result of a request that was sent to a name server: the addresses
/// that completed it, or `Cancelled` where it was given up and `answer`
/// is none.
pub fn wire_result<E>(answer: Option<Vec<IpAddress>>) -> (r: Result<
    Vec<IpAddress>,
    ResolveError<E>,
>)
    ensures
        match answer {
            Some(ips) => r == Ok::<Vec<IpAddress>, ResolveError<E>>(ips),
            None => r == Err::<Vec<IpAddress>, ResolveError<E>>(ResolveError::Cancelled),
        },
{
    match answer {
        Some(ips) => Ok(ips),
        None => Err(ResolveError::Cancelled),
    }
}

} // verus!
