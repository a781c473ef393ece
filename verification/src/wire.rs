//! A resolver that speaks DNS itself: the requests in flight and the
//! replies that complete them.
//!
//! The resolver holds the configured name servers and a table of pending
//! requests, keyed by transaction identifier. A request enters the table
//! before its query is sent. A datagram completes a request only if it
//! repeats the question that was asked under its identifier; anything
//! else leaves the table as it was.
use std::collections::HashMap;
use vstd::prelude::*;
use vstd::string::StringSliceAdditionalSpecFns;
use crate::addr::{socket_address, IpAddress, SocketAddress};
use crate::config::{listed_nameservers, nameservers, ConfigError};
use crate::dns::{
    address_query, address_records, answers_query, check_name, collect_addresses, matches_query,
    name_error, query_for, read_reply, reply_in, NameError, Reply, ReplyView,
};

verus! {

/// The port that name servers listen on.
pub const DNS_PORT: u16 = 53;

/// How many identifiers are drawn for one request before it is refused.
pub const ID_DRAWS: u32 = 0x10_0000;

/// Why a request is refused.
#[derive(Clone, Copy, Debug, PartialEq, Eq, Structural)]
pub enum QueryError {
    /// No name server is configured.
    NoNameserver,
    /// No query can be built for the host name.
    Name(NameError),
    /// The identifier offered for the request is that of a pending one.
    IdInUse,
    /// Every identifier drawn was that of a pending request.
    NoFreeId,
}

/// A request that was entered: what to send, and where.
#[derive(Debug, PartialEq, Eq)]
pub struct Outgoing {
    /// The transaction identifier of the request.
    pub id: u16,
    /// The query.
    pub packet: Vec<u8>,
    /// The first configured name server, at [`DNS_PORT`].
    pub server: SocketAddress,
}

/// A request that was refused, with the handle it came with.
#[derive(Debug, PartialEq, Eq)]
pub struct Refused<H> {
    pub reason: QueryError,
    pub handle: H,
}

/// A request that a reply has completed.
#[derive(Debug, PartialEq, Eq)]
pub struct Completed<H> {
    /// The handle that the request came with.
    pub handle: H,
    /// The addresses that the reply brought, in its order; there may be none.
    pub addresses: Vec<IpAddress>,
}

struct Pending<H> {
    host: String,
    handle: H,
}

/// The name servers and the pending requests of a resolver.
///
/// `H` is whatever completes a request: the resolver keeps it and hands
/// it back with the addresses.
pub struct AsyncResolver<H> {
    nameservers: Vec<IpAddress>,
    running: HashMap<u16, Pending<H>>,
}

/// Why the request for `name` is refused whatever its identifier, where
/// `servers` name servers are configured.
pub open spec fn refusal(servers: nat, name: Seq<u8>) -> Option<QueryError> {
    if servers == 0 {
        Some(QueryError::NoNameserver)
    } else {
        match name_error(name) {
            Some(e) => Some(QueryError::Name(e)),
            None => None,
        }
    }
}

/// The handle and the addresses with which `reply` completes a request
/// among `pending`: those of the request under its identifier, where it
/// answers that request's query.
pub open spec fn completion<H>(pending: Map<u16, (Seq<char>, H)>, reply: ReplyView) -> Option<
    (H, Seq<IpAddress>),
> {
    if pending.contains_key(reply.id) && answers_query(reply, pending[reply.id].0) {
        Some((pending[reply.id].1, address_records(reply.answers)))
    } else {
        None
    }
}

/// The pending requests after `reply`: without the one it completes.
pub open spec fn after_reply<H>(pending: Map<u16, (Seq<char>, H)>, reply: ReplyView) -> Map<
    u16,
    (Seq<char>, H),
> {
    if completion(pending, reply) is Some {
        pending.remove(reply.id)
    } else {
        pending
    }
}

/// Draws a number from `rand::thread_rng`. Nothing is promised of it.
#[verifier::external_body]
fn random_id() -> u16 {
    rand::Rng::gen(&mut rand::thread_rng())
}

impl<H> AsyncResolver<H> {
    /// The configured name servers, in their order.
    pub closed spec fn servers(&self) -> Seq<IpAddress> {
        self.nameservers@
    }

    /// The pending requests: under each identifier the host name asked
    /// for and the handle of the request.
    pub closed spec fn pending(&self) -> Map<u16, (Seq<char>, H)> {
        Map::new(
            |id: u16| self.running@.contains_key(id),
            |id: u16| (self.running@[id].host@, self.running@[id].handle),
        )
    }

    /// A resolver with the name servers `nameservers` and no request.
    pub fn new(nameservers: Vec<IpAddress>) -> (r: Self)
        ensures
            r.servers() == nameservers@,
            r.pending() == Map::<u16, (Seq<char>, H)>::empty(),
    {
        let r = AsyncResolver { nameservers, running: HashMap::new() };
        assert(r.pending() =~= Map::<u16, (Seq<char>, H)>::empty());
        r
    }

    /// A resolver with the name servers that the configuration text
    /// `conf` lists, and no request.
    pub fn system_config(conf: &[u8]) -> (r: Result<Self, ConfigError>)
        ensures
            r is Ok == listed_nameservers(conf@) is Some,
            r matches Ok(resolver) ==> listed_nameservers(conf@) == Some(resolver.servers())
                && resolver.pending() == Map::<u16, (Seq<char>, H)>::empty(),
    {
        match nameservers(conf) {
            Ok(list) => Ok(Self::new(list)),
            Err(e) => Err(e),
        }
    }

    /// The configured name servers, in their order.
    pub fn nameservers(&self) -> (r: &Vec<IpAddress>)
        ensures
            r@ == self.servers(),
    {
        &self.nameservers
    }

    /// Whether a request is pending under `id`.
    pub fn is_pending(&self, id: u16) -> (r: bool)
        ensures
            r == self.pending().contains_key(id),
    {
        self.running.contains_key(&id)
    }

    /// How many requests are pending.
    pub fn pending_count(&self) -> (r: usize)
        ensures
            r == self.pending().dom().len(),
    {
        assert(self.pending().dom() =~= self.running@.dom());
        self.running.len()
    }

    /// Why a request for `host` is refused whatever its identifier.
    fn check_request(&self, host: &str) -> (r: Option<QueryError>)
        ensures
            r == refusal(self.servers().len(), host.spec_bytes()),
    {
        if self.nameservers.len() == 0 {
            return Some(QueryError::NoNameserver);
        }
        match check_name(host) {
            Some(e) => Some(QueryError::Name(e)),
            None => None,
        }
    }

    /// Enters a request under `id`.
    fn enter(&mut self, id: u16, host: &str, handle: H) -> (out: Outgoing)
        requires
            refusal(old(self).servers().len(), host.spec_bytes()) is None,
            !old(self).pending().contains_key(id),
        ensures
            out.id == id,
            out.packet@ == address_query(id, true, host.spec_bytes()),
            out.server == socket_address(old(self).servers()[0], DNS_PORT),
            final(self).servers() == old(self).servers(),
            final(self).pending() == old(self).pending().insert(id, (host@, handle)),
    {
        let packet = query_for(id, host).unwrap();
        let server = SocketAddress::new(self.nameservers[0], DNS_PORT);
        self.running.insert(id, Pending { host: host.to_owned(), handle });
        assert(self.pending() =~= old(self).pending().insert(id, (host@, handle)));
        Outgoing { id, packet, server }
    }

    /// Enters a request for the addresses of `host` under the offered
    /// identifier `id`, and says what to send for it.
    ///
    /// The request is refused, and nothing changes, where no name server
    /// is configured, where no query can be built for `host`, or where
    /// `id` is that of a pending request.
    pub fn send_request_as(&mut self, id: u16, host: &str, handle: H) -> (r: Result<
        Outgoing,
        Refused<H>,
    >)
        ensures
            final(self).servers() == old(self).servers(),
            match refusal(old(self).servers().len(), host.spec_bytes()) {
                Some(reason) => r == Err::<Outgoing, Refused<H>>(Refused { reason, handle })
                    && final(self).pending() == old(self).pending(),
                None => if old(self).pending().contains_key(id) {
                    r == Err::<Outgoing, Refused<H>>(
                        Refused { reason: QueryError::IdInUse, handle },
                    ) && final(self).pending() == old(self).pending()
                } else {
                    &&& r matches Ok(out)
                    &&& out.id == id
                    &&& out.packet@ == address_query(id, true, host.spec_bytes())
                    &&& out.server == socket_address(old(self).servers()[0], DNS_PORT)
                    &&& final(self).pending() == old(self).pending().insert(id, (host@, handle))
                },
            },
    {
        if let Some(reason) = self.check_request(host) {
            return Err(Refused { reason, handle });
        }
        if self.running.contains_key(&id) {
            return Err(Refused { reason: QueryError::IdInUse, handle });
        }
        Ok(self.enter(id, host, handle))
    }

    /// Enters a request for the addresses of `host` under an identifier
    /// drawn at random, and says what to send for it.
    ///
    /// An identifier that is that of a pending request is drawn again, up
    /// to [`ID_DRAWS`] times. The request enters the table before anything
    /// is sent, so a reply cannot come too early to be matched.
    pub fn send_request(&mut self, host: &str, handle: H) -> (r: Result<Outgoing, Refused<H>>)
        ensures
            final(self).servers() == old(self).servers(),
            match r {
                Ok(out) => {
                    &&& refusal(old(self).servers().len(), host.spec_bytes()) is None
                    &&& !old(self).pending().contains_key(out.id)
                    &&& out.packet@ == address_query(out.id, true, host.spec_bytes())
                    &&& out.server == socket_address(old(self).servers()[0], DNS_PORT)
                    &&& final(self).pending() == old(self).pending().insert(
                        out.id,
                        (host@, handle),
                    )
                },
                Err(refused) => {
                    &&& refused.handle == handle
                    &&& final(self).pending() == old(self).pending()
                    &&& match refusal(old(self).servers().len(), host.spec_bytes()) {
                        Some(reason) => refused.reason == reason,
                        None => refused.reason == QueryError::NoFreeId && old(self).pending()
                            != Map::<u16, (Seq<char>, H)>::empty(),
                    }
                },
            },
            refusal(old(self).servers().len(), host.spec_bytes()) is Some ==> r is Err,
            refusal(old(self).servers().len(), host.spec_bytes()) is None && old(self).pending()
                == Map::<u16, (Seq<char>, H)>::empty() ==> r is Ok,
    {
        if let Some(reason) = self.check_request(host) {
            return Err(Refused { reason, handle });
        }
        let mut draws: u32 = 0;
        while draws < ID_DRAWS
            invariant
                *self == *old(self),
                refusal(self.servers().len(), host.spec_bytes()) is None,
                draws > 0 ==> self.pending() != Map::<u16, (Seq<char>, H)>::empty(),
            decreases ID_DRAWS - draws,
        {
            let id: u16 = random_id();
            if !self.running.contains_key(&id) {
                return Ok(self.enter(id, host, handle));
            }
            assert(self.pending().contains_key(id));
            draws += 1;
        }
        Err(Refused { reason: QueryError::NoFreeId, handle })
    }

    /// Takes in what was read from a datagram.
    ///
    /// The request under the reply's identifier is taken from the table.
    /// It is completed where the reply answers its query, and is put back
    /// where it does not: the reply it waits for may still come.
    pub fn accept_reply(&mut self, reply: &Reply) -> (done: Option<Completed<H>>)
        ensures
            final(self).servers() == old(self).servers(),
            final(self).pending() == after_reply(old(self).pending(), reply@),
            done is Some == completion(old(self).pending(), reply@) is Some,
            done matches Some(c) ==> completion(old(self).pending(), reply@) == Some(
                (c.handle, c.addresses@),
            ),
    {
        let request = match self.running.remove(&reply.id) {
            Some(request) => request,
            None => {
                assert(self.pending() =~= old(self).pending());
                return None;
            },
        };
        if !matches_query(reply, &request.host) {
            self.running.insert(reply.id, request);
            assert(self.pending() =~= old(self).pending());
            return None;
        }
        assert(self.pending() =~= old(self).pending().remove(reply.id));
        Some(Completed { handle: request.handle, addresses: collect_addresses(&reply.answers) })
    }

    /// Takes in a datagram.
    ///
    /// A datagram that is no DNS message of at most 512 bytes is dropped;
    /// any other is taken in as [`accept_reply`](Self::accept_reply) says.
    pub fn accept_packet(&mut self, data: &[u8]) -> (done: Option<Completed<H>>)
        ensures
            final(self).servers() == old(self).servers(),
            match reply_in(data@) {
                None => done is None && final(self).pending() == old(self).pending(),
                Some(reply) => {
                    &&& final(self).pending() == after_reply(old(self).pending(), reply)
                    &&& done is Some == completion(old(self).pending(), reply) is Some
                    &&& done matches Some(c) ==> completion(old(self).pending(), reply) == Some(
                        (c.handle, c.addresses@),
                    )
                },
            },
    {
        match read_reply(data) {
            Some(reply) => self.accept_reply(&reply),
            None => None,
        }
    }
}

/// A reply under an identifier that no pending request has completes
/// nothing and changes nothing.
pub proof fn lemma_unsolicited_reply_is_dropped<H>(
    pending: Map<u16, (Seq<char>, H)>,
    reply: ReplyView,
)
    requires
        !pending.contains_key(reply.id),
    ensures
        completion(pending, reply) is None,
        after_reply(pending, reply) == pending,
{
}

/// A reply that does not repeat the question of the request under its
/// identifier (another name, another type, another class, or not exactly
/// one question) completes nothing and changes nothing.
pub proof fn lemma_mismatched_reply_is_dropped<H>(
    pending: Map<u16, (Seq<char>, H)>,
    reply: ReplyView,
)
    requires
        pending.contains_key(reply.id),
        reply.questions.len() != 1 || reply.questions[0].name != pending[reply.id].0
            || reply.questions[0].kind != crate::dns::TYPE_A || reply.questions[0].class
            != crate::dns::CLASS_IN,
    ensures
        completion(pending, reply) is None,
        after_reply(pending, reply) == pending,
{
}

/// After a reply that did not answer a pending request, a later reply
/// that does answer it completes it with its own addresses, and only
/// then does the request leave the table.
pub proof fn lemma_request_survives_mismatch<H>(
    pending: Map<u16, (Seq<char>, H)>,
    wrong: ReplyView,
    right: ReplyView,
)
    requires
        pending.contains_key(right.id),
        wrong.id == right.id,
        !answers_query(wrong, pending[right.id].0),
        answers_query(right, pending[right.id].0),
    ensures
        completion(pending, wrong) is None,
        completion(after_reply(pending, wrong), right) == Some(
            (pending[right.id].1, address_records(right.answers)),
        ),
        after_reply(after_reply(pending, wrong), right) == pending.remove(right.id),
{
}

/// A request is entered under an identifier that differs from that of
/// every pending request: two requests that are pending together never
/// share one.
pub proof fn lemma_pending_identifiers_differ<H>(
    pending: Map<u16, (Seq<char>, H)>,
    first: u16,
    first_request: (Seq<char>, H),
    second: u16,
)
    requires
        !pending.contains_key(first),
        !pending.insert(first, first_request).contains_key(second),
    ensures
        first != second,
        forall|id: u16| pending.contains_key(id) ==> id != first && id != second,
{
}

/// A reply changes no request but the one under its identifier.
pub proof fn lemma_reply_touches_one_request<H>(
    pending: Map<u16, (Seq<char>, H)>,
    reply: ReplyView,
    other: u16,
)
    requires
        other != reply.id,
    ensures
        after_reply(pending, reply).contains_key(other) == pending.contains_key(other),
        pending.contains_key(other) ==> after_reply(pending, reply)[other] == pending[other],
{
}

} // verus!
