//! Address literals: which text denotes which address.
//!
//! An IPv4 literal is four decimal octets separated by dots, none with a
//! leading zero. An IPv6 literal is eight colon-separated groups of one to
//! four hexadecimal digits; one run of zero groups may be written `::`, and
//! the last two groups may be written as an IPv4 literal. A socket address
//! literal is `a.b.c.d:port` or `[ipv6]:port`, where the brackets may also
//! hold `%` and a decimal scope after the address.
use vstd::prelude::*;
use vstd::slice::slice_subrange;
use crate::addr::{ipv4_bits, ipv6_bits, IpAddress, Ipv4Address, Ipv6Address, SocketAddress};
use crate::text::{
    cut_first, decimal_upto, decimal_value, hex_group, is_digit, read_decimal, read_hex_group,
    split_first,
};

verus! {

/// The octet written by `s`: one to three decimal digits, without a leading
/// zero unless `s` is `0`, of value at most 255.
pub open spec fn octet(s: Seq<char>) -> Option<u8> {
    if s.len() <= 3 && (s.len() == 1 || s[0] != '0') && decimal_upto(s, 255) is Some {
        Some(decimal_value(s) as u8)
    } else {
        None
    }
}

/// The address written by four octet texts.
pub open spec fn ipv4_of_octets(
    a: Option<u8>,
    b: Option<u8>,
    c: Option<u8>,
    d: Option<u8>,
) -> Option<Ipv4Address> {
    match (a, b, c, d) {
        (Some(a), Some(b), Some(c), Some(d)) => Some(Ipv4Address { bits: ipv4_bits(a, b, c, d) }),
        _ => None,
    }
}

/// The IPv4 address that `s` denotes.
pub open spec fn ipv4_literal(s: Seq<char>) -> Option<Ipv4Address> {
    match split_first(s, '.') {
        None => None,
        Some((a, s1)) => match split_first(s1, '.') {
            None => None,
            Some((b, s2)) => match split_first(s2, '.') {
                None => None,
                Some((c, d)) => ipv4_of_octets(octet(a), octet(b), octet(c), octet(d)),
            },
        },
    }
}

/// The two 16-bit groups that hold an IPv4 address inside an IPv6 one.
pub open spec fn groups_of_ipv4(ip: Ipv4Address) -> Seq<u16> {
    seq![(ip.bits / 0x1_0000) as u16, (ip.bits % 0x1_0000) as u16]
}

/// The groups written by the last item of a list: one hexadecimal group,
/// or, where `v4_tail` allows it, an IPv4 literal standing for two groups.
pub open spec fn last_groups(s: Seq<char>, v4_tail: bool) -> Option<Seq<u16>> {
    match hex_group(s) {
        Some(g) => Some(seq![g]),
        None => if v4_tail {
            match ipv4_literal(s) {
                Some(ip) => Some(groups_of_ipv4(ip)),
                None => None,
            }
        } else {
            None
        },
    }
}

/// `first` followed by `rest`, where both are there.
pub open spec fn followed_by(first: Option<Seq<u16>>, rest: Option<Seq<u16>>) -> Option<
    Seq<u16>,
> {
    match (first, rest) {
        (Some(a), Some(b)) => Some(a + b),
        _ => None,
    }
}

/// The groups written by `s`, a colon-separated list of one or more items.
/// Every item is a hexadecimal group, except that the last may be what
/// `last_groups` allows.
pub open spec fn group_list(s: Seq<char>, v4_tail: bool) -> Option<Seq<u16>>
    decreases s.len(),
    via group_list_decreases
{
    match split_first(s, ':') {
        None => last_groups(s, v4_tail),
        Some((item, rest)) => followed_by(
            match hex_group(item) {
                Some(g) => Some(seq![g]),
                None => None,
            },
            group_list(rest, v4_tail),
        ),
    }
}

#[via_fn]
proof fn group_list_decreases(s: Seq<char>, v4_tail: bool) {
    s.index_of_first_ensures(':');
}

/// The groups written by `s`, which may also be empty and then writes none.
pub open spec fn optional_group_list(s: Seq<char>, v4_tail: bool) -> Option<Seq<u16>> {
    if s.len() == 0 {
        Some(Seq::empty())
    } else {
        group_list(s, v4_tail)
    }
}

/// Whether `s` holds `::` at position `k`.
pub open spec fn double_colon_at(s: Seq<char>, k: int) -> bool {
    0 <= k && k + 1 < s.len() && s[k] == ':' && s[k + 1] == ':'
}

/// The position of the first `::` in `s`.
pub open spec fn first_double_colon(s: Seq<char>) -> Option<int>
    decreases s.len(),
{
    if s.len() < 2 {
        None
    } else if s[0] == ':' && s[1] == ':' {
        Some(0)
    } else {
        match first_double_colon(s.skip(1)) {
            Some(k) => Some(k + 1),
            None => None,
        }
    }
}

/// `n` zero groups.
pub open spec fn zero_groups(n: int) -> Seq<u16> {
    Seq::new(n as nat, |i: int| 0u16)
}

/// The address whose groups are `head`, then zero groups, then `tail`,
/// where at least one zero group is left to fill.
pub open spec fn ipv6_of_parts(head: Option<Seq<u16>>, tail: Option<Seq<u16>>) -> Option<
    Ipv6Address,
> {
    match (head, tail) {
        (Some(h), Some(t)) => if h.len() + t.len() <= 7 {
            Some(Ipv6Address { bits: ipv6_bits(h + zero_groups(8 - h.len() - t.len()) + t) })
        } else {
            None
        },
        _ => None,
    }
}

/// The IPv6 address that `s` denotes.
pub open spec fn ipv6_literal(s: Seq<char>) -> Option<Ipv6Address> {
    match first_double_colon(s) {
        None => match group_list(s, true) {
            Some(g) => if g.len() == 8 {
                Some(Ipv6Address { bits: ipv6_bits(g) })
            } else {
                None
            },
            None => None,
        },
        Some(k) => ipv6_of_parts(
            optional_group_list(s.take(k), false),
            optional_group_list(s.skip(k + 2), true),
        ),
    }
}

/// The address that `s` denotes, of either family.
pub open spec fn ip_literal(s: Seq<char>) -> Option<IpAddress> {
    match ipv4_literal(s) {
        Some(ip) => Some(IpAddress::V4(ip)),
        None => match ipv6_literal(s) {
            Some(ip) => Some(IpAddress::V6(ip)),
            None => None,
        },
    }
}

/// The port written by `s`: one or more decimal digits of value at most 65535.
pub open spec fn port_numeral(s: Seq<char>) -> Option<u16> {
    match decimal_upto(s, 0xffff) {
        Some(v) => Some(v as u16),
        None => None,
    }
}

/// The scope written by `s`: one or more decimal digits of a 32-bit value.
pub open spec fn scope_numeral(s: Seq<char>) -> Option<u32> {
    match decimal_upto(s, 0xffff_ffff) {
        Some(v) => Some(v as u32),
        None => None,
    }
}

/// The address and scope written between the brackets of a socket address.
pub open spec fn scoped_ipv6(s: Seq<char>) -> Option<(Ipv6Address, u32)> {
    match split_first(s, '%') {
        None => match ipv6_literal(s) {
            Some(ip) => Some((ip, 0u32)),
            None => None,
        },
        Some((ip, scope)) => match (ipv6_literal(ip), scope_numeral(scope)) {
            (Some(ip), Some(scope)) => Some((ip, scope)),
            _ => None,
        },
    }
}

/// The port written by `s`, which is a colon and then a port numeral.
pub open spec fn colon_port(s: Seq<char>) -> Option<u16> {
    if s.len() > 0 && s[0] == ':' {
        port_numeral(s.skip(1))
    } else {
        None
    }
}

/// The socket address that `s` denotes in the form `[ipv6]:port`.
pub open spec fn socket_v6_literal(s: Seq<char>) -> Option<SocketAddress> {
    if s.len() > 0 && s[0] == '[' {
        match split_first(s.skip(1), ']') {
            None => None,
            Some((inside, after)) => match (scoped_ipv6(inside), colon_port(after)) {
                (Some((ip, scope_id)), Some(port)) => Some(
                    SocketAddress::V6 { ip, port, flowinfo: 0, scope_id },
                ),
                _ => None,
            },
        }
    } else {
        None
    }
}

/// The socket address that `s` denotes in the form `a.b.c.d:port`.
pub open spec fn socket_v4_literal(s: Seq<char>) -> Option<SocketAddress> {
    match split_first(s, ':') {
        None => None,
        Some((ip, port)) => match (ipv4_literal(ip), port_numeral(port)) {
            (Some(ip), Some(port)) => Some(SocketAddress::V4 { ip, port }),
            _ => None,
        },
    }
}

/// The socket address that `s` denotes.
pub open spec fn socket_address_literal(s: Seq<char>) -> Option<SocketAddress> {
    match socket_v4_literal(s) {
        Some(a) => Some(a),
        None => socket_v6_literal(s),
    }
}

/// Where no `::` starts before `k` and one starts at `k`, `k` is the first.
pub proof fn lemma_first_double_colon(s: Seq<char>, k: int)
    requires
        0 <= k <= s.len(),
        forall|j: int| 0 <= j < k ==> !double_colon_at(s, j),
    ensures
        double_colon_at(s, k) ==> first_double_colon(s) == Some(k),
        k + 1 >= s.len() ==> first_double_colon(s) is None,
    decreases k,
{
    if s.len() >= 2 && k > 0 {
        assert(!double_colon_at(s, 0));
        let t = s.skip(1);
        assert forall|j: int| 0 <= j < k - 1 implies !double_colon_at(t, j) by {
            assert(!double_colon_at(s, j + 1));
        }
        lemma_first_double_colon(t, k - 1);
        assert(double_colon_at(s, k) == double_colon_at(t, k - 1));
    }
}

/// An IPv4 literal holds digits and dots, and nothing else.
pub proof fn lemma_ipv4_literal_chars(s: Seq<char>)
    requires
        ipv4_literal(s) is Some,
    ensures
        forall|i: int| 0 <= i < s.len() ==> is_digit(#[trigger] s[i]) || s[i] == '.',
{
    s.index_of_first_ensures('.');
    let (a, s1) = split_first(s, '.').unwrap();
    s1.index_of_first_ensures('.');
    let (b, s2) = split_first(s1, '.').unwrap();
    s2.index_of_first_ensures('.');
    let (c, d) = split_first(s2, '.').unwrap();
    assert forall|i: int| 0 <= i < s2.len() implies is_digit(#[trigger] s2[i]) || s2[i] == '.' by {
        if i < c.len() {
            assert(s2[i] == c[i]);
        } else if i > c.len() {
            assert(s2[i] == d[i - c.len() - 1]);
        }
    }
    assert forall|i: int| 0 <= i < s1.len() implies is_digit(#[trigger] s1[i]) || s1[i] == '.' by {
        if i < b.len() {
            assert(s1[i] == b[i]);
        } else if i > b.len() {
            assert(s1[i] == s2[i - b.len() - 1]);
        }
    }
    assert forall|i: int| 0 <= i < s.len() implies is_digit(#[trigger] s[i]) || s[i] == '.' by {
        if i < a.len() {
            assert(s[i] == a[i]);
        } else if i > a.len() {
            assert(s[i] == s1[i - a.len() - 1]);
        }
    }
}

/// An IPv4 literal, a colon and a port numeral are together the literal
/// of the socket address of the two.
pub proof fn lemma_socket_v4_literal(ip: Seq<char>, port: Seq<char>)
    requires
        ipv4_literal(ip) is Some,
        port_numeral(port) is Some,
    ensures
        socket_address_literal(ip + seq![':'] + port) == Some(
            SocketAddress::V4 {
                ip: ipv4_literal(ip).unwrap(),
                port: port_numeral(port).unwrap(),
            },
        ),
{
    let s = ip + seq![':'] + port;
    lemma_ipv4_literal_chars(ip);
    s.index_of_first_ensures(':');
    assert(s[ip.len() as int] == ':');
    assert forall|j: int| 0 <= j < ip.len() implies s[j] != ':' by {
        assert(s[j] == ip[j]);
    }
    assert(s.index_of_first(':') == Some(ip.len() as int));
    assert(s.take(ip.len() as int) =~= ip);
    assert(s.skip(ip.len() as int + 1) =~= port);
}

/// Reads `s` as one octet.
pub fn read_octet(s: &[char]) -> (r: Option<u8>)
    ensures
        r == octet(s@),
{
    if s.len() > 3 || (s.len() > 1 && s[0] == '0') {
        return None;
    }
    match read_decimal(s, 255) {
        Some(v) => Some(v as u8),
        None => None,
    }
}

/// Reads `s` as an IPv4 literal.
pub fn read_ipv4(s: &[char]) -> (r: Option<Ipv4Address>)
    ensures
        r == ipv4_literal(s@),
{
    let (a, s1) = match cut_first(s, '.') {
        Some(parts) => parts,
        None => return None,
    };
    let (b, s2) = match cut_first(s1, '.') {
        Some(parts) => parts,
        None => return None,
    };
    let (c, d) = match cut_first(s2, '.') {
        Some(parts) => parts,
        None => return None,
    };
    match (read_octet(a), read_octet(b), read_octet(c), read_octet(d)) {
        (Some(a), Some(b), Some(c), Some(d)) => Some(Ipv4Address::new(a, b, c, d)),
        _ => None,
    }
}

/// Reads `s` as a colon-separated list of groups.
pub fn read_group_list(s: &[char], v4_tail: bool) -> (r: Option<Vec<u16>>)
    ensures
        r is Some == group_list(s@, v4_tail) is Some,
        r matches Some(groups) ==> group_list(s@, v4_tail) == Some(groups@),
{
    let mut groups: Vec<u16> = Vec::new();
    let mut rest: &[char] = s;
    loop
        invariant
            group_list(s@, v4_tail) == followed_by(Some(groups@), group_list(rest@, v4_tail)),
        decreases rest.len(),
    {
        match cut_first(rest, ':') {
            Some((item, after)) => {
                proof {
                    rest@.index_of_first_ensures(':');
                }
                match read_hex_group(item) {
                    Some(g) => {
                        proof {
                            let tail = group_list(after@, v4_tail);
                            if tail is Some {
                                assert(groups@.push(g) + tail.unwrap() =~= groups@ + (seq![g]
                                    + tail.unwrap()));
                            }
                        }
                        groups.push(g);
                        rest = after;
                    },
                    None => {
                        return None;
                    },
                }
            },
            None => {
                match read_hex_group(rest) {
                    Some(g) => {
                        proof {
                            assert(groups@.push(g) =~= groups@ + seq![g]);
                        }
                        groups.push(g);
                        return Some(groups);
                    },
                    None => {
                        if !v4_tail {
                            return None;
                        }
                        match read_ipv4(rest) {
                            Some(ip) => {
                                let high: u16 = (ip.bits / 0x1_0000) as u16;
                                let low: u16 = (ip.bits % 0x1_0000) as u16;
                                proof {
                                    assert(groups@.push(high).push(low) =~= groups@
                                        + groups_of_ipv4(ip));
                                }
                                groups.push(high);
                                groups.push(low);
                                return Some(groups);
                            },
                            None => {
                                return None;
                            },
                        }
                    },
                }
            },
        }
    }
}

/// Reads `s` as a list of groups that may be empty.
pub fn read_optional_group_list(s: &[char], v4_tail: bool) -> (r: Option<Vec<u16>>)
    ensures
        r is Some == optional_group_list(s@, v4_tail) is Some,
        r matches Some(groups) ==> optional_group_list(s@, v4_tail) == Some(groups@),
{
    if s.len() == 0 {
        Some(Vec::new())
    } else {
        read_group_list(s, v4_tail)
    }
}

/// The position of the first `::` in `s`.
pub fn find_double_colon(s: &[char]) -> (r: Option<usize>)
    ensures
        r is Some == first_double_colon(s@) is Some,
        r matches Some(k) ==> k + 2 <= s.len() && first_double_colon(s@) == Some(k as int),
{
    let mut k: usize = 0;
    while s.len() - k >= 2
        invariant
            k <= s.len(),
            forall|j: int| 0 <= j < k ==> !double_colon_at(s@, j),
        decreases s.len() - k,
    {
        if s[k] == ':' && s[k + 1] == ':' {
            proof {
                lemma_first_double_colon(s@, k as int);
            }
            return Some(k);
        }
        k += 1;
    }
    proof {
        lemma_first_double_colon(s@, k as int);
    }
    None
}

/// Reads `s` as an IPv6 literal.
pub fn read_ipv6(s: &[char]) -> (r: Option<Ipv6Address>)
    ensures
        r == ipv6_literal(s@),
{
    match find_double_colon(s) {
        None => match read_group_list(s, true) {
            Some(groups) => if groups.len() == 8 {
                Some(Ipv6Address::from_groups(groups.as_slice()))
            } else {
                None
            },
            None => None,
        },
        Some(k) => {
            let head = match read_optional_group_list(slice_subrange(s, 0, k), false) {
                Some(groups) => groups,
                None => return None,
            };
            let tail = match read_optional_group_list(slice_subrange(s, k + 2, s.len()), true) {
                Some(groups) => groups,
                None => return None,
            };
            if head.len() > 7 || tail.len() > 7 - head.len() {
                return None;
            }
            let mut groups: Vec<u16> = head;
            let ghost h = groups@;
            let fill: usize = 8 - groups.len() - tail.len();
            let mut i: usize = 0;
            while i < fill
                invariant
                    i <= fill,
                    groups@ == h + zero_groups(i as int),
                decreases fill - i,
            {
                proof {
                    assert(groups@.push(0u16) =~= h + zero_groups(i + 1));
                }
                groups.push(0);
                i += 1;
            }
            let mut j: usize = 0;
            while j < tail.len()
                invariant
                    j <= tail.len(),
                    groups@ == h + zero_groups(fill as int) + tail@.take(j as int),
                decreases tail.len() - j,
            {
                proof {
                    assert(groups@.push(tail@[j as int]) =~= h + zero_groups(fill as int)
                        + tail@.take(j + 1));
                }
                groups.push(tail[j]);
                j += 1;
            }
            proof {
                assert(tail@.take(j as int) =~= tail@);
            }
            Some(Ipv6Address::from_groups(groups.as_slice()))
        },
    }
}

/// Reads `s` as an address of either family.
pub fn read_ip(s: &[char]) -> (r: Option<IpAddress>)
    ensures
        r == ip_literal(s@),
{
    match read_ipv4(s) {
        Some(ip) => Some(IpAddress::V4(ip)),
        None => match read_ipv6(s) {
            Some(ip) => Some(IpAddress::V6(ip)),
            None => None,
        },
    }
}

/// Reads `s` as a port numeral.
pub fn read_port_numeral(s: &[char]) -> (r: Option<u16>)
    ensures
        r == port_numeral(s@),
{
    match read_decimal(s, 0xffff) {
        Some(v) => Some(v as u16),
        None => None,
    }
}

/// Reads `s` as the address and scope between the brackets of a socket address.
pub fn read_scoped_ipv6(s: &[char]) -> (r: Option<(Ipv6Address, u32)>)
    ensures
        r == scoped_ipv6(s@),
{
    match cut_first(s, '%') {
        None => match read_ipv6(s) {
            Some(ip) => Some((ip, 0)),
            None => None,
        },
        Some((ip, scope)) => match (read_ipv6(ip), read_decimal(scope, 0xffff_ffff)) {
            (Some(ip), Some(scope)) => Some((ip, scope)),
            _ => None,
        },
    }
}

/// Reads `s` as a socket address literal.
pub fn read_socket_address(s: &[char]) -> (r: Option<SocketAddress>)
    ensures
        r == socket_address_literal(s@),
{
    if let Some((ip, port)) = cut_first(s, ':') {
        if let (Some(ip), Some(port)) = (read_ipv4(ip), read_port_numeral(port)) {
            return Some(SocketAddress::V4 { ip, port });
        }
    }
    if s.len() == 0 || s[0] != '[' {
        return None;
    }
    let (inside, after) = match cut_first(slice_subrange(s, 1, s.len()), ']') {
        Some(parts) => parts,
        None => return None,
    };
    if after.len() == 0 || after[0] != ':' {
        return None;
    }
    let port = read_port_numeral(slice_subrange(after, 1, after.len()));
    match (read_scoped_ipv6(inside), port) {
        (Some((ip, scope_id)), Some(port)) => Some(
            SocketAddress::V6 { ip, port, flowinfo: 0, scope_id },
        ),
        _ => None,
    }
}

} // verus!
