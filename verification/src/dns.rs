//! DNS messages: the query that is sent and what is read from a reply.
//!
//! Encoding and decoding are the work of the `dns_parser` crate. This
//! module holds a reply as plain values and decides on them: whether a
//! reply answers a query, and which addresses it brings.
use vstd::prelude::*;
use vstd::string::StringSliceAdditionalSpecFns;
use vstd::slice::slice_subrange;
use crate::addr::{IpAddress, Ipv4Address};

verus! {

/// The record type of a host address.
pub const TYPE_A: u16 = 1;

/// The class of the Internet.
pub const CLASS_IN: u16 = 1;

/// The longest message that is sent or read, in bytes.
pub const MAX_MESSAGE: usize = 512;

/// The bytes of a query besides those of the name: a header of 12, the
/// first length and the end of the name, and the type and class.
pub const QUERY_OVERHEAD: usize = 18;

/// The byte that separates the labels of a name: a dot.
pub const DOT: u8 = 0x2e;

/// One more than the longest label of a name, in bytes.
pub const LABEL_LIMIT: usize = 63;

/// One entry of the question section of a message.
#[derive(Debug, PartialEq, Eq)]
pub struct Question {
    /// The name asked for, its labels joined by dots.
    pub name: String,
    /// The code of the record type asked for.
    pub kind: u16,
    /// The code of the class asked for.
    pub class: u16,
}

/// What one record of the answer section brings.
#[derive(Clone, Copy, Debug, PartialEq, Eq, Structural)]
pub enum RecordData {
    /// A host address.
    A(Ipv4Address),
    /// Data of any other type.
    Other,
}

/// What is read from a reply.
#[derive(Debug, PartialEq, Eq)]
pub struct Reply {
    /// The transaction identifier.
    pub id: u16,
    /// The question section.
    pub questions: Vec<Question>,
    /// The answer section, in the order of the message.
    pub answers: Vec<RecordData>,
}

/// A [`Question`] with its name as text.
pub ghost struct QuestionView {
    pub name: Seq<char>,
    pub kind: u16,
    pub class: u16,
}

/// A [`Reply`] with its sections as sequences.
pub ghost struct ReplyView {
    pub id: u16,
    pub questions: Seq<QuestionView>,
    pub answers: Seq<RecordData>,
}

impl View for Question {
    type V = QuestionView;

    open spec fn view(&self) -> QuestionView {
        QuestionView { name: self.name@, kind: self.kind, class: self.class }
    }
}

impl View for Reply {
    type V = ReplyView;

    open spec fn view(&self) -> ReplyView {
        ReplyView {
            id: self.id,
            questions: self.questions@.map_values(|q: Question| q@),
            answers: self.answers@,
        }
    }
}

/// Why no query is built for a name.
#[derive(Clone, Copy, Debug, PartialEq, Eq, Structural)]
pub enum NameError {
    /// A label of the name has 63 bytes or more.
    LabelTooLong,
    /// The query for the name would exceed [`MAX_MESSAGE`].
    MessageTooLong,
}

/// Whether every label of `name`, the bytes between its dots, is shorter
/// than [`LABEL_LIMIT`].
pub open spec fn labels_fit(name: Seq<u8>) -> bool
    decreases name.len(),
    via labels_fit_decreases
{
    match name.index_of_first(DOT) {
        None => name.len() < LABEL_LIMIT,
        Some(i) => i < LABEL_LIMIT && labels_fit(name.skip(i + 1)),
    }
}

#[via_fn]
proof fn labels_fit_decreases(name: Seq<u8>) {
    name.index_of_first_ensures(DOT);
}

/// Why no query is built for `name`, if none is.
pub open spec fn name_error(name: Seq<u8>) -> Option<NameError> {
    if !labels_fit(name) {
        Some(NameError::LabelTooLong)
    } else if name.len() + QUERY_OVERHEAD > MAX_MESSAGE {
        Some(NameError::MessageTooLong)
    } else {
        None
    }
}

/// Whether `reply` answers the query for the addresses of `host`: it
/// repeats exactly one question, which asks for the Internet host
/// addresses of that very name.
pub open spec fn answers_query(reply: ReplyView, host: Seq<char>) -> bool {
    &&& reply.questions.len() == 1
    &&& reply.questions[0].kind == TYPE_A
    &&& reply.questions[0].class == CLASS_IN
    &&& reply.questions[0].name == host
}

/// The addresses that `answers` bring: those of its host address records,
/// in their order.
pub open spec fn address_records(answers: Seq<RecordData>) -> Seq<IpAddress>
    decreases answers.len(),
{
    if answers.len() == 0 {
        Seq::empty()
    } else {
        let before = address_records(answers.drop_last());
        match answers.last() {
            RecordData::A(ip) => before.push(IpAddress::V4(ip)),
            RecordData::Other => before,
        }
    }
}

/// The bytes that write `name` in a message: each label behind its
/// length, and a zero at the end.
pub open spec fn encoded_name(name: Seq<u8>) -> Seq<u8>
    decreases name.len(),
    via encoded_name_decreases
{
    match name.index_of_first(DOT) {
        None => seq![name.len() as u8] + name + seq![0u8],
        Some(i) => seq![i as u8] + name.take(i) + encoded_name(name.skip(i + 1)),
    }
}

#[via_fn]
proof fn encoded_name_decreases(name: Seq<u8>) {
    name.index_of_first_ensures(DOT);
}

/// The bytes of the query that asks, under the identifier `id`, for the
/// Internet host addresses of `name`, with recursion desired or not: a
/// header with the identifier, the flag and the count of one question,
/// then the name, the type A and the class IN.
pub open spec fn address_query(id: u16, recursion: bool, name: Seq<u8>) -> Seq<u8> {
    seq![
        (id / 256) as u8,
        (id % 256) as u8,
        if recursion { 1u8 } else { 0u8 },
        0u8,
        0u8,
        1u8,
        0u8,
        0u8,
        0u8,
        0u8,
        0u8,
        0u8,
    ] + encoded_name(name) + seq![0u8, 1u8, 0u8, 1u8]
}

/// What the bytes `data` hold when read as a DNS message, if they are one.
pub uninterp spec fn wire_reply(data: Seq<u8>) -> Option<ReplyView>;

/// What a datagram `data` holds as a reply: longer ones hold none.
pub open spec fn reply_in(data: Seq<u8>) -> Option<ReplyView> {
    if data.len() <= MAX_MESSAGE {
        wire_reply(data)
    } else {
        None
    }
}

/// Builds a query with `dns_parser::Builder`: `new_query`, then
/// `add_question` for the type A and the class IN, then `build`.
///
/// `new_query` writes a header of twelve bytes: the identifier, the flags
/// (of which only "recursion desired" may be set) and four counts of
/// zero. `add_question` writes the name label by label, the type and the
/// class, and counts the question; it panics on a label of 63 bytes or
/// more, which `requires` leaves out. `build` hands the bytes out unless
/// they are more than 512.
#[verifier::external_body]
fn build_query(id: u16, recursion: bool, host: &str) -> (r: Option<Vec<u8>>)
    requires
        labels_fit(host.spec_bytes()),
    ensures
        r is Some == (host.spec_bytes().len() + QUERY_OVERHEAD <= MAX_MESSAGE),
        r matches Some(packet) ==> packet@ == address_query(id, recursion, host.spec_bytes()),
{
    let mut builder = dns_parser::Builder::new_query(id, recursion);
    builder.add_question(host, false, dns_parser::QueryType::A, dns_parser::QueryClass::IN);
    builder.build().ok()
}

/// Reads a message with `dns_parser::Packet::parse` and hands out its
/// identifier, its questions and the data of its answers as plain values.
///
/// A question's name is what `Name::to_string` gives, its type and class
/// are their codes. An answer is its address where it is an A record.
/// What is read depends on the bytes alone and is named, not stated.
/// `Name::to_string` follows the pointers of a compressed name by calling
/// itself; `requires` keeps the message, and so that chain, short.
#[verifier::external_body]
fn parse_reply(data: &[u8]) -> (r: Option<Reply>)
    requires
        data.len() <= MAX_MESSAGE,
    ensures
        r is Some == wire_reply(data@) is Some,
        r matches Some(reply) ==> wire_reply(data@) == Some(reply@),
{
    let packet = dns_parser::Packet::parse(data).ok()?;
    Some(Reply {
        id: packet.header.id,
        questions: packet.questions.iter().map(|q| Question {
            name: q.qname.to_string(),
            kind: q.qtype as u16,
            class: q.qclass as u16,
        }).collect(),
        answers: packet.answers.iter().map(|a| match a.data {
            dns_parser::RData::A(record) => RecordData::A(Ipv4Address { bits: record.0.into() }),
            _ => RecordData::Other,
        }).collect(),
    })
}

/// A name whose labels fit is written with two bytes more than it has:
/// the length of its first label and the zero at its end.
pub proof fn lemma_encoded_name_length(name: Seq<u8>)
    requires
        labels_fit(name),
    ensures
        encoded_name(name).len() == name.len() + 2,
    decreases name.len(),
{
    name.index_of_first_ensures(DOT);
    match name.index_of_first(DOT) {
        None => {},
        Some(i) => {
            lemma_encoded_name_length(name.skip(i + 1));
        },
    }
}

/// A query for a name whose labels fit has [`QUERY_OVERHEAD`] bytes more
/// than the name.
pub proof fn lemma_query_length(id: u16, recursion: bool, name: Seq<u8>)
    requires
        labels_fit(name),
    ensures
        address_query(id, recursion, name).len() == name.len() + QUERY_OVERHEAD,
{
    lemma_encoded_name_length(name);
}

/// Whether every label of `name` is shorter than [`LABEL_LIMIT`].
pub fn check_labels(name: &[u8]) -> (r: bool)
    ensures
        r == labels_fit(name@),
{
    let mut rest: &[u8] = name;
    loop
        invariant
            labels_fit(name@) == labels_fit(rest@),
        decreases rest.len(),
    {
        let mut i: usize = 0;
        while i < rest.len() && rest[i] != DOT
            invariant
                i <= rest.len(),
                forall|j: int| 0 <= j < i ==> rest@[j] != DOT,
            decreases rest.len() - i,
        {
            i += 1;
        }
        proof {
            rest@.index_of_first_ensures(DOT);
        }
        if i >= LABEL_LIMIT {
            return false;
        }
        if i == rest.len() {
            return true;
        }
        rest = slice_subrange(rest, i + 1, rest.len());
    }
}

/// Why no query is built for `host`, if none is.
pub fn check_name(host: &str) -> (r: Option<NameError>)
    ensures
        r == name_error(host.spec_bytes()),
{
    let name = host.as_bytes();
    if !check_labels(name) {
        Some(NameError::LabelTooLong)
    } else if name.len() > MAX_MESSAGE - QUERY_OVERHEAD {
        Some(NameError::MessageTooLong)
    } else {
        None
    }
}

/// The query that asks, under `id` and with recursion desired, for the
/// host addresses of `host`.
pub fn query_for(id: u16, host: &str) -> (r: Result<Vec<u8>, NameError>)
    ensures
        match name_error(host.spec_bytes()) {
            Some(e) => r == Err::<Vec<u8>, NameError>(e),
            None => r is Ok && r.unwrap()@ == address_query(id, true, host.spec_bytes())
                && r.unwrap()@.len() == host.spec_bytes().len() + QUERY_OVERHEAD,
        },
{
    if let Some(e) = check_name(host) {
        return Err(e);
    }
    proof {
        lemma_query_length(id, true, host.spec_bytes());
    }
    match build_query(id, true, host) {
        Some(packet) => Ok(packet),
        None => Err(NameError::MessageTooLong),
    }
}

/// Reads the datagram `data` as a reply.
pub fn read_reply(data: &[u8]) -> (r: Option<Reply>)
    ensures
        r is Some == reply_in(data@) is Some,
        r matches Some(reply) ==> reply_in(data@) == Some(reply@),
{
    if data.len() > MAX_MESSAGE {
        None
    } else {
        parse_reply(data)
    }
}

/// Whether `reply` answers the query for the addresses of `host`.
pub fn matches_query(reply: &Reply, host: &String) -> (r: bool)
    ensures
        r == answers_query(reply@, host@),
{
    reply.questions.len() == 1 && reply.questions[0].kind == TYPE_A && reply.questions[0].class
        == CLASS_IN && reply.questions[0].name == *host
}

/// The addresses that `answers` bring.
pub fn collect_addresses(answers: &Vec<RecordData>) -> (r: Vec<IpAddress>)
    ensures
        r@ == address_records(answers@),
{
    let mut r: Vec<IpAddress> = Vec::new();
    let mut i: usize = 0;
    while i < answers.len()
        invariant
            i <= answers.len(),
            r@ == address_records(answers@.take(i as int)),
        decreases answers.len() - i,
    {
        proof {
            assert(answers@.take(i + 1).drop_last() =~= answers@.take(i as int));
        }
        match answers[i] {
            RecordData::A(ip) => {
                r.push(IpAddress::V4(ip));
            },
            RecordData::Other => {},
        }
        i += 1;
    }
    proof {
        assert(answers@.take(i as int) =~= answers@);
    }
    r
}

} // verus!
