use tokio_dns::establish::{if_host_resolve, plan, resolved, Plan};
use tokio_dns::resolver::{addresses, lookup_name, pool_result, wire_result, DEFAULT_POOL_SIZE};
use tokio_dns::{
    Endpoint, EndpointError, IpAddress, Ipv4Address, Ipv6Address, ResolveError, SocketAddress,
    ToEndpoint,
};

fn loopback4() -> IpAddress {
    IpAddress::V4(Ipv4Address::new(127, 0, 0, 1))
}

fn loopback6() -> IpAddress {
    IpAddress::V6(Ipv6Address { bits: 1 })
}

#[test]
fn lookup_is_asked_with_a_port_of_zero() {
    assert_eq!(lookup_name("localhost"), "localhost:0");
    assert_eq!(lookup_name(""), ":0");
    assert_eq!(lookup_name("münchen.example"), "münchen.example:0");
    assert_eq!(DEFAULT_POOL_SIZE, 5);
}

#[test]
fn lookup_gives_the_addresses_in_order() {
    let found = vec![
        SocketAddress::V6 { ip: Ipv6Address { bits: 1 }, port: 0, flowinfo: 0, scope_id: 0 },
        SocketAddress::V4 { ip: Ipv4Address::new(127, 0, 0, 1), port: 0 },
    ];
    assert_eq!(addresses(&found), vec![loopback6(), loopback4()]);
    assert_eq!(pool_result::<u32>(Some(Ok(found))), Ok(vec![loopback6(), loopback4()]));
    assert_eq!(pool_result::<u32>(Some(Ok(vec![]))), Ok(vec![]));
}

#[test]
fn lookup_error_is_handed_on() {
    assert_eq!(pool_result::<u32>(Some(Err(11))), Err(ResolveError::ResolutionFailed(11)));
}

#[test]
fn lost_worker_interrupts_the_lookup() {
    assert_eq!(pool_result::<u32>(None), Err(ResolveError::Interrupted));
}

#[test]
fn request_given_up_is_cancelled() {
    assert_eq!(wire_result::<u32>(None), Err(ResolveError::Cancelled));
    assert_eq!(wire_result::<u32>(Some(vec![loopback4()])), Ok(vec![loopback4()]));
    assert_eq!(wire_result::<u32>(Some(vec![])), Ok(vec![]));
}

#[test]
fn loopback_addresses_are_told_apart() {
    assert!(loopback4().is_loopback());
    assert!(loopback6().is_loopback());
    assert!(IpAddress::V4(Ipv4Address::new(127, 255, 255, 254)).is_loopback());
    assert!(!IpAddress::V4(Ipv4Address::new(128, 0, 0, 1)).is_loopback());
    assert!(!IpAddress::V4(Ipv4Address::new(126, 255, 255, 255)).is_loopback());
    assert!(!IpAddress::V6(Ipv6Address { bits: 2 }).is_loopback());
    assert!(!IpAddress::V6(Ipv6Address { bits: 0 }).is_loopback());
}

#[test]
fn socket_address_is_used_directly() {
    let addr = SocketAddress::V4 { ip: Ipv4Address::new(1, 2, 3, 4), port: 80 };
    assert_eq!(if_host_resolve(Endpoint::SocketAddr(addr)), Plan::Direct(addr));
    assert_eq!(plan("1.2.3.4:80"), Ok(Plan::Direct(addr)));
    assert_eq!(plan(("1.2.3.4", 80)), Ok(Plan::Direct(addr)));
    assert_eq!(plan(addr), Ok(Plan::Direct(addr)));
    assert_eq!(plan(&addr), Ok(Plan::Direct(addr)));
    assert_eq!(plan((IpAddress::V4(Ipv4Address::new(1, 2, 3, 4)), 80)), Ok(Plan::Direct(addr)));
}

#[test]
fn host_name_is_resolved() {
    assert_eq!(if_host_resolve(Endpoint::Host("example.com", 80)), Plan::Resolve("example.com", 80));
    assert_eq!(plan("example.com:80"), Ok(Plan::Resolve("example.com", 80)));
    assert_eq!(plan(("example.com", 80)), Ok(Plan::Resolve("example.com", 80)));
    assert_eq!(plan("example.com"), Err(EndpointError::InvalidEndpoint));
    assert_eq!(plan("example.com:x"), Err(EndpointError::InvalidPort));
}

#[test]
fn resolved_addresses_become_candidates() {
    assert_eq!(
        resolved::<u32>(Ok(vec![loopback6(), loopback4()]), 8080),
        Ok(vec![
            SocketAddress::V6 { ip: Ipv6Address { bits: 1 }, port: 8080, flowinfo: 0, scope_id: 0 },
            SocketAddress::V4 { ip: Ipv4Address::new(127, 0, 0, 1), port: 8080 },
        ])
    );
    assert_eq!(resolved::<u32>(Ok(vec![]), 1), Ok(vec![]));
}

#[test]
fn resolver_error_is_handed_on_unchanged() {
    assert_eq!(resolved::<u32>(Err(7), 80), Err(7));
}

#[test]
fn endpoint_of_a_pair_prefers_the_literal() {
    assert_eq!(
        ("::1", 9).to_endpoint(),
        Ok(Endpoint::SocketAddr(SocketAddress::V6 {
            ip: Ipv6Address { bits: 1 },
            port: 9,
            flowinfo: 0,
            scope_id: 0,
        }))
    );
    assert_eq!(("localhost", 9).to_endpoint(), Ok(Endpoint::Host("localhost", 9)));
    assert_eq!(("1.2.3", 9).to_endpoint(), Ok(Endpoint::Host("1.2.3", 9)));
    assert_eq!(("", 9).to_endpoint(), Ok(Endpoint::Host("", 9)));
}
