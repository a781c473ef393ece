//! Endpoints: the target of a connection, before any lookup.
//!
//! An endpoint is either a socket address, ready to use, or a host name and
//! a port, whose name a resolver still has to look up. Turning a value into
//! an endpoint never resolves anything.
use vstd::prelude::*;
use vstd::slice::slice_subrange;
use vstd::string::StrSliceExecFns;
use crate::addr::{socket_address, IpAddress, SocketAddress};
use crate::literal::{
    ip_literal, ipv4_literal, lemma_socket_v4_literal, port_numeral, read_ip, read_port_numeral,
    read_socket_address, socket_address_literal,
};
use crate::text::{chars_of, find_last, split_last};

verus! {

/// The target of a connection.
#[derive(Clone, Copy, Debug, Eq, PartialEq)]
pub enum Endpoint<'a> {
    /// A host name, still to be resolved, and a port.
    Host(&'a str, u16),
    /// A socket address.
    SocketAddr(SocketAddress),
}

/// What an [`Endpoint`] holds, with the host name as text.
pub ghost enum EndpointView {
    Host(Seq<char>, u16),
    SocketAddr(SocketAddress),
}

/// Why a text is no endpoint.
#[derive(Clone, Copy, Debug, PartialEq, Eq, Structural)]
pub enum EndpointError {
    /// The text holds no colon, so no port can be told from the host.
    InvalidEndpoint,
    /// What follows the last colon is no port.
    InvalidPort,
}

impl<'a> View for Endpoint<'a> {
    type V = EndpointView;

    open spec fn view(&self) -> EndpointView {
        match *self {
            Endpoint::Host(name, port) => EndpointView::Host(name@, port),
            Endpoint::SocketAddr(addr) => EndpointView::SocketAddr(addr),
        }
    }
}

/// The outcome `r` with its endpoint viewed.
pub open spec fn viewed(r: Result<Endpoint<'_>, EndpointError>) -> Result<
    EndpointView,
    EndpointError,
> {
    match r {
        Ok(endpoint) => Ok(endpoint@),
        Err(e) => Err(e),
    }
}

/// The port written by `s` after a host name: a port numeral, which a
/// single `+` may precede.
pub open spec fn port_text(s: Seq<char>) -> Option<u16> {
    if s.len() > 0 && s[0] == '+' {
        port_numeral(s.skip(1))
    } else {
        port_numeral(s)
    }
}

/// The endpoint that the text `s` denotes.
///
/// A socket address literal denotes that address. Any other text is cut at
/// its last colon into a host name and a port.
pub open spec fn endpoint_of_text(s: Seq<char>) -> Result<EndpointView, EndpointError> {
    match socket_address_literal(s) {
        Some(addr) => Ok(EndpointView::SocketAddr(addr)),
        None => match split_last(s, ':') {
            None => Err(EndpointError::InvalidEndpoint),
            Some((host, port)) => match port_text(port) {
                Some(port) => Ok(EndpointView::Host(host, port)),
                None => Err(EndpointError::InvalidPort),
            },
        },
    }
}

/// The endpoint that `host` and `port` denote: a socket address where
/// `host` is an address literal, a host name otherwise.
pub open spec fn endpoint_of_pair(host: Seq<char>, port: u16) -> EndpointView {
    match ip_literal(host) {
        Some(ip) => EndpointView::SocketAddr(socket_address(ip, port)),
        None => EndpointView::Host(host, port),
    }
}

/// A value that denotes an endpoint.
///
/// Implemented for socket addresses, for an address or a host name paired
/// with a port, and for text of the form `host:port`.
pub trait ToEndpoint<'a>: Sized {
    /// The endpoint that this value denotes, or why it denotes none.
    spec fn endpoint(&self) -> Result<EndpointView, EndpointError>;

    /// Turns this value into an endpoint.
    fn to_endpoint(self) -> (r: Result<Endpoint<'a>, EndpointError>)
        ensures
            viewed(r) == self.endpoint(),
    ;
}

impl<'a> ToEndpoint<'a> for SocketAddress {
    open spec fn endpoint(&self) -> Result<EndpointView, EndpointError> {
        Ok(EndpointView::SocketAddr(*self))
    }

    fn to_endpoint(self) -> (r: Result<Endpoint<'a>, EndpointError>) {
        Ok(Endpoint::SocketAddr(self))
    }
}

impl<'a, 'b> ToEndpoint<'a> for &'b SocketAddress {
    open spec fn endpoint(&self) -> Result<EndpointView, EndpointError> {
        Ok(EndpointView::SocketAddr(**self))
    }

    fn to_endpoint(self) -> (r: Result<Endpoint<'a>, EndpointError>) {
        Ok(Endpoint::SocketAddr(*self))
    }
}

impl<'a> ToEndpoint<'a> for (IpAddress, u16) {
    open spec fn endpoint(&self) -> Result<EndpointView, EndpointError> {
        Ok(EndpointView::SocketAddr(socket_address(self.0, self.1)))
    }

    fn to_endpoint(self) -> (r: Result<Endpoint<'a>, EndpointError>) {
        Ok(Endpoint::SocketAddr(SocketAddress::new(self.0, self.1)))
    }
}

impl<'a> ToEndpoint<'a> for (&'a str, u16) {
    open spec fn endpoint(&self) -> Result<EndpointView, EndpointError> {
        Ok(endpoint_of_pair(self.0@, self.1))
    }

    fn to_endpoint(self) -> (r: Result<Endpoint<'a>, EndpointError>) {
        let chars = chars_of(self.0);
        match read_ip(chars.as_slice()) {
            Some(ip) => Ok(Endpoint::SocketAddr(SocketAddress::new(ip, self.1))),
            None => Ok(Endpoint::Host(self.0, self.1)),
        }
    }
}

impl<'a> ToEndpoint<'a> for &'a str {
    open spec fn endpoint(&self) -> Result<EndpointView, EndpointError> {
        endpoint_of_text(self@)
    }

    fn to_endpoint(self) -> (r: Result<Endpoint<'a>, EndpointError>) {
        let chars = chars_of(self);
        let text = chars.as_slice();
        if let Some(addr) = read_socket_address(text) {
            return Ok(Endpoint::SocketAddr(addr));
        }
        match find_last(text, ':') {
            Some(at) => match read_port_text(slice_subrange(text, at + 1, text.len())) {
                Some(port) => Ok(Endpoint::Host(self.substring_char(0, at), port)),
                None => Err(EndpointError::InvalidPort),
            },
            None => Err(EndpointError::InvalidEndpoint),
        }
    }
}

/// Reads `s` as the port that follows a host name.
pub fn read_port_text(s: &[char]) -> (r: Option<u16>)
    ensures
        r == port_text(s@),
{
    if s.len() > 0 && s[0] == '+' {
        read_port_numeral(slice_subrange(s, 1, s.len()))
    } else {
        read_port_numeral(s)
    }
}

/// Text that is a socket address literal denotes that socket address.
pub proof fn lemma_literal_text_denotes_its_address(s: Seq<char>)
    requires
        socket_address_literal(s) is Some,
    ensures
        endpoint_of_text(s) == Ok::<EndpointView, EndpointError>(
            EndpointView::SocketAddr(socket_address_literal(s).unwrap()),
        ),
{
}

/// Text that is an IPv4 literal, a colon and a port numeral denotes the
/// socket address of the two, and never a host name.
pub proof fn lemma_ipv4_text_denotes_its_address(ip: Seq<char>, port: Seq<char>)
    requires
        ipv4_literal(ip) is Some,
        port_numeral(port) is Some,
    ensures
        endpoint_of_text(ip + seq![':'] + port) == Ok::<EndpointView, EndpointError>(
            EndpointView::SocketAddr(
                SocketAddress::V4 {
                    ip: ipv4_literal(ip).unwrap(),
                    port: port_numeral(port).unwrap(),
                },
            ),
        ),
{
    lemma_socket_v4_literal(ip, port);
}

/// A host that is an address literal denotes, with a port, the socket
/// address of the two, and never a host name.
pub proof fn lemma_literal_host_denotes_its_address(host: Seq<char>, port: u16)
    ensures
        ip_literal(host) is Some ==> endpoint_of_pair(host, port) == EndpointView::SocketAddr(
            socket_address(ip_literal(host).unwrap(), port),
        ),
        ip_literal(host) is None ==> endpoint_of_pair(host, port) == EndpointView::Host(
            host,
            port,
        ),
{
}

/// Text `host:port` that is no socket address literal denotes the host
/// name `host` with the port that `port` writes.
pub proof fn lemma_host_and_port_text(host: Seq<char>, port: Seq<char>)
    requires
        port_text(port) is Some,
        socket_address_literal(host + seq![':'] + port) is None,
    ensures
        endpoint_of_text(host + seq![':'] + port) == Ok::<EndpointView, EndpointError>(
            EndpointView::Host(host, port_text(port).unwrap()),
        ),
{
    let s = host + seq![':'] + port;
    s.index_of_last_ensures(':');
    assert(s[host.len() as int] == ':');
    assert(s.contains(':'));
    let at = s.index_of_last(':').unwrap();
    assert forall|j: int| host.len() < j < s.len() implies s[j] != ':' by {
        let k = j - host.len() - 1;
        assert(s[j] == port[k]);
        if port.len() > 0 && port[0] == '+' {
            if k > 0 {
                assert(port.skip(1)[k - 1] == port[k]);
            }
        }
    }
    assert(at == host.len());
    assert(s.take(at) =~= host);
    assert(s.skip(at + 1) =~= port);
}

} // verus!
