//! The name servers that a resolver configuration lists.
//!
//! The text of the configuration is read by the `resolv_conf` crate; this
//! module hands on the addresses of its `nameserver` lines, in their order.
use vstd::prelude::*;
use crate::addr::{IpAddress, Ipv4Address, Ipv6Address};

verus! {

#[verifier::external_type_specification]
#[verifier::external_body]
pub struct ExParseError(resolv_conf::ParseError);

/// Why a configuration lists no name servers: it could not be read.
#[derive(Debug)]
pub struct ConfigError {
    /// What `resolv_conf` found wrong, with the line.
    pub cause: resolv_conf::ParseError,
}

/// The name servers that the configuration text `conf` lists, in its
/// order, where the text can be read.
pub uninterp spec fn listed_nameservers(conf: Seq<u8>) -> Option<Seq<IpAddress>>;

/// Reads a configuration with `resolv_conf::Config::parse` and hands out
/// the addresses of its `nameservers`, each as a number and without its
/// scope. Which addresses a text lists depends on the text alone and is
/// named, not stated.
#[verifier::external_body]
fn parse_nameservers(conf: &[u8]) -> (r: Result<Vec<IpAddress>, resolv_conf::ParseError>)
    ensures
        r is Ok == listed_nameservers(conf@) is Some,
        r matches Ok(list) ==> listed_nameservers(conf@) == Some(list@),
{
    let config = resolv_conf::Config::parse(conf)?;
    Ok(config.nameservers.iter().map(|ip| match ip {
        resolv_conf::ScopedIp::V4(ip) => IpAddress::V4(Ipv4Address { bits: (*ip).into() }),
        resolv_conf::ScopedIp::V6(ip, _) => IpAddress::V6(Ipv6Address { bits: (*ip).into() }),
    }).collect())
}

/// The name servers that the configuration text `conf` lists.
pub fn nameservers(conf: &[u8]) -> (r: Result<Vec<IpAddress>, ConfigError>)
    ensures
        r is Ok == listed_nameservers(conf@) is Some,
        r matches Ok(list) ==> listed_nameservers(conf@) == Some(list@),
{
    match parse_nameservers(conf) {
        Ok(list) => Ok(list),
        Err(cause) => Err(ConfigError { cause }),
    }
}

} // verus!
