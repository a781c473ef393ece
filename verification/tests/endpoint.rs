use tokio_dns::addr::{IpAddress, Ipv4Address, Ipv6Address, SocketAddress};
use tokio_dns::endpoint::{Endpoint, EndpointError, ToEndpoint};

#[test]
fn test_endpoint_str_port() {
    let ep = ("0.0.0.0", 1227).to_endpoint().unwrap();
    match ep {
        Endpoint::SocketAddr(addr) => {
            assert_eq!(addr.ip(), IpAddress::V4(Ipv4Address::new(0, 0, 0, 0)));
            assert_eq!(addr.port(), 1227);
        }
        _ => panic!(),
    }
}

#[test]
fn test_endpoint_str() {
    let ep = "localhost:1227".to_endpoint().unwrap();
    match ep {
        Endpoint::Host(host, port) => {
            assert_eq!(host, "localhost");
            assert_eq!(port, 1227);
        }
        _ => panic!(),
    }
}

#[test]
fn test_endpoint_str_ipv4() {
    let ep = "0.0.0.0:1227".to_endpoint().unwrap();
    match ep {
        Endpoint::SocketAddr(SocketAddress::V4 { ip, port }) => {
            assert_eq!(ip, Ipv4Address::new(0, 0, 0, 0));
            assert_eq!(port, 1227);
        }
        _ => panic!(),
    }
}

#[test]
fn test_endpoint_str_ipv6() {
    let ep = "[::]:1227".to_endpoint().unwrap();
    match ep {
        Endpoint::SocketAddr(SocketAddress::V6 { ip, port, flowinfo, scope_id }) => {
            assert_eq!(ip, Ipv6Address { bits: 0 });
            assert_eq!(port, 1227);
            assert_eq!(flowinfo, 0);
            assert_eq!(scope_id, 0);
        }
        _ => panic!(),
    }
}

#[test]
fn text_without_colon_is_no_endpoint() {
    assert_eq!("localhost".to_endpoint(), Err(EndpointError::InvalidEndpoint));
    assert_eq!("".to_endpoint(), Err(EndpointError::InvalidEndpoint));
    assert_eq!("127.0.0.1".to_endpoint(), Err(EndpointError::InvalidEndpoint));
}

#[test]
fn text_with_bad_port_is_rejected() {
    assert_eq!("localhost:".to_endpoint(), Err(EndpointError::InvalidPort));
    assert_eq!("localhost:http".to_endpoint(), Err(EndpointError::InvalidPort));
    assert_eq!("localhost:65536".to_endpoint(), Err(EndpointError::InvalidPort));
    assert_eq!("localhost:-1".to_endpoint(), Err(EndpointError::InvalidPort));
    assert_eq!("localhost:+".to_endpoint(), Err(EndpointError::InvalidPort));
    assert_eq!("[::1]".to_endpoint(), Err(EndpointError::InvalidPort));
    assert_eq!("127.0.0.1:99999".to_endpoint(), Err(EndpointError::InvalidPort));
}

#[test]
fn text_is_cut_at_its_last_colon() {
    assert_eq!("a:b:80".to_endpoint(), Ok(Endpoint::Host("a:b", 80)));
    assert_eq!("::1:80".to_endpoint(), Ok(Endpoint::Host("::1", 80)));
    assert_eq!(":80".to_endpoint(), Ok(Endpoint::Host("", 80)));
    assert_eq!("münchen.example:80".to_endpoint(), Ok(Endpoint::Host("münchen.example", 80)));
}

#[test]
fn port_after_a_host_may_carry_a_plus() {
    assert_eq!("localhost:+80".to_endpoint(), Ok(Endpoint::Host("localhost", 80)));
    assert_eq!("localhost:0080".to_endpoint(), Ok(Endpoint::Host("localhost", 80)));
    assert_eq!("localhost:65535".to_endpoint(), Ok(Endpoint::Host("localhost", 65535)));
    assert_eq!("localhost:0".to_endpoint(), Ok(Endpoint::Host("localhost", 0)));
    assert_eq!("localhost:++80".to_endpoint(), Err(EndpointError::InvalidPort));
    assert_eq!("localhost: 80".to_endpoint(), Err(EndpointError::InvalidPort));
}

#[test]
fn socket_address_literal_is_taken_whole() {
    assert_eq!(
        "127.0.0.1:1227".to_endpoint(),
        Ok(Endpoint::SocketAddr(SocketAddress::V4 {
            ip: Ipv4Address::new(127, 0, 0, 1),
            port: 1227,
        }))
    );
    assert_eq!(
        "[2001:db8::1]:443".to_endpoint(),
        Ok(Endpoint::SocketAddr(SocketAddress::V6 {
            ip: Ipv6Address { bits: 0x2001_0db8 << 96 | 1 },
            port: 443,
            flowinfo: 0,
            scope_id: 0,
        }))
    );
}

#[test]
fn typed_addresses_are_endpoints() {
    let addr = SocketAddress::V4 { ip: Ipv4Address::new(10, 1, 2, 3), port: 5 };
    assert_eq!(addr.to_endpoint(), Ok(Endpoint::SocketAddr(addr)));
    assert_eq!((&addr).to_endpoint(), Ok(Endpoint::SocketAddr(addr)));
    assert_eq!(
        (IpAddress::V4(Ipv4Address::new(10, 1, 2, 3)), 5).to_endpoint(),
        Ok(Endpoint::SocketAddr(addr))
    );
}
