use tokio_dns::config::nameservers;
use tokio_dns::literal::{read_ip, read_socket_address};
use tokio_dns::text::chars_of;
use tokio_dns::{IpAddress, Ipv4Address, Ipv6Address, SocketAddress};

fn ip(text: &str) -> Option<IpAddress> {
    read_ip(&chars_of(text))
}

fn sock(text: &str) -> Option<SocketAddress> {
    read_socket_address(&chars_of(text))
}

fn listed(text: &str) -> Option<IpAddress> {
    match nameservers(format!("nameserver {}\n", text).as_bytes()) {
        Ok(list) => {
            assert_eq!(list.len(), 1);
            Some(list[0])
        }
        Err(_) => None,
    }
}

#[test]
fn ipv4_literals_have_their_value() {
    assert_eq!(ip("1.2.3.4"), Some(IpAddress::V4(Ipv4Address { bits: 0x0102_0304 })));
    assert_eq!(ip("255.255.255.255"), Some(IpAddress::V4(Ipv4Address { bits: 0xffff_ffff })));
    assert_eq!(ip("0.0.0.0"), Some(IpAddress::V4(Ipv4Address { bits: 0 })));
    assert_eq!(ip("127.0.0.1"), Some(IpAddress::V4(Ipv4Address::new(127, 0, 0, 1))));
}

#[test]
fn ipv4_literals_are_strict() {
    for text in ["", "1.2.3", "1.2.3.4.5", "256.1.1.1", "01.2.3.4", "1.2.3.04", "1..3.4",
        "1.2.3.", ".1.2.3", "1.2.3.4 ", "a.b.c.d", "1.2.3.1000", "+1.2.3.4", "1,2,3,4"] {
        assert_eq!(ip(text), None, "{}", text);
    }
}

#[test]
fn ipv6_literals_have_their_value() {
    assert_eq!(ip("::"), Some(IpAddress::V6(Ipv6Address { bits: 0 })));
    assert_eq!(ip("::1"), Some(IpAddress::V6(Ipv6Address { bits: 1 })));
    assert_eq!(ip("1::"), Some(IpAddress::V6(Ipv6Address { bits: 1 << 112 })));
    assert_eq!(
        ip("1:2:3:4:5:6:7:8"),
        Some(IpAddress::V6(Ipv6Address { bits: 0x0001_0002_0003_0004_0005_0006_0007_0008 }))
    );
    assert_eq!(
        ip("2001:db8::ff00:42:8329"),
        Some(IpAddress::V6(Ipv6Address { bits: 0x2001_0db8_0000_0000_0000_ff00_0042_8329 }))
    );
    assert_eq!(
        ip("::ffff:1.2.3.4"),
        Some(IpAddress::V6(Ipv6Address { bits: 0xffff_0102_0304 }))
    );
    assert_eq!(
        ip("1:2:3:4:5:6:1.2.3.4"),
        Some(IpAddress::V6(Ipv6Address { bits: 0x0001_0002_0003_0004_0005_0006_0102_0304 }))
    );
    assert_eq!(
        ip("ABCD:ef01::"),
        Some(IpAddress::V6(Ipv6Address { bits: 0xabcd_ef01 << 96 }))
    );
    assert_eq!(
        ip("1:2:3:4:5:6:7::"),
        Some(IpAddress::V6(Ipv6Address { bits: 0x0001_0002_0003_0004_0005_0006_0007_0000 }))
    );
}

#[test]
fn ipv6_literals_are_strict() {
    for text in [":", ":::", "1:2:3:4:5:6:7", "1:2:3:4:5:6:7:8:9", "1::2::3", "12345::",
        "g::", "1:2:3:4:5:6:7:8::", "::1:2:3:4:5:6:7:8", "1.2.3.4::", "::1.2.3.4:5",
        "1:2:3:4:5:6:7:1.2.3.4", "[::1]", "::1%1", ":1", "1:"] {
        assert_eq!(ip(text), None, "{}", text);
    }
}

#[test]
fn socket_address_literals_have_their_value() {
    assert_eq!(
        sock("127.0.0.1:1227"),
        Some(SocketAddress::V4 { ip: Ipv4Address::new(127, 0, 0, 1), port: 1227 })
    );
    assert_eq!(
        sock("[::]:1227"),
        Some(SocketAddress::V6 { ip: Ipv6Address { bits: 0 }, port: 1227, flowinfo: 0, scope_id: 0 })
    );
    assert_eq!(
        sock("[fe80::1%7]:00080"),
        Some(SocketAddress::V6 {
            ip: Ipv6Address { bits: 0xfe80 << 112 | 1 },
            port: 80,
            flowinfo: 0,
            scope_id: 7,
        })
    );
    assert_eq!(sock("1.2.3.4:65535").map(|a| a.port()), Some(65535));
    assert_eq!(sock("1.2.3.4:0").map(|a| a.port()), Some(0));
}

#[test]
fn socket_address_literals_are_strict() {
    for text in ["", "1.2.3.4", "1.2.3.4:", "1.2.3.4:65536", "1.2.3.4:+80", "1.2.3.4:-1",
        "::1:80", "[::1]", "[::1]:", "[::1]80", "[::1:80", "[1.2.3.4]:80", "[::1%]:80",
        "[::1%x]:80", "[::1%4294967296]:80", "localhost:80", "[::1]:80 ", " 1.2.3.4:80"] {
        assert_eq!(sock(text), None, "{}", text);
    }
}

#[test]
fn addresses_are_read_as_a_configuration_lists_them() {
    let texts = [
        "0.0.0.0", "1.2.3.4", "255.255.255.255", "256.0.0.1", "1.2.3", "01.1.1.1", "1.1.1.1.",
        "::", "::1", "1::", "1::8", "1:2:3:4:5:6:7:8", "1:2:3:4:5:6:7::", "::2:3:4:5:6:7:8",
        "1:2:3:4::5:6:7:8", "1:2:3::5:6:7:8", "::ffff:192.168.0.1", "::192.168.0.1",
        "1:2:3:4:5:6:1.2.3.4", "1:2:3:4:5:1.2.3.4", "1:2:3:4:5::1.2.3.4", "1:2:3:4:5:6::1.2.3.4",
        "::1.2.3.4:5", "1.2.3.4::", "fFfF::AaAa", "00001::", "0000::", "1:::2", ":::", ":",
        "1:", ":1", "1::2::3", "::1.2.3", "::1.2.3.256", "::01.2.3.4", "1:2:3:4:5:6:7:8:9",
        "12345::1", "::g", "[::1]", "a:b:c:d:e:f:0:1", "::0.0.0.0", "0::0", "1.2.3.4:80",
        "1:2:3:4:5:6:7:1.2.3.4", "::1:2:3:4:5:6:7", "::1:2:3:4:5:6:7:8", "1:2:3:4:5:6:7:8::",
    ];
    for text in texts {
        assert_eq!(ip(text), listed(text), "{}", text);
    }
}
