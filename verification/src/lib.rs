//! Name resolution and connection establishment, stated as verified logic.
//!
//! An [`Endpoint`] is read from text without any lookup. A resolver turns
//! a host name into addresses: [`resolver`] says what a lookup on a worker
//! is asked and what is made of its answer, [`AsyncResolver`] keeps the
//! requests that were sent to a name server and matches the replies. A
//! connection strategy ([`Sequential`], [`Parallel`]) decides which of the
//! candidate addresses are attempted and which outcome is reported.
//!
//! Nothing here touches a socket, a file or a thread: every function
//! takes plain values and gives plain values back.
pub mod addr;
pub mod text;
pub mod literal;
pub mod endpoint;
pub mod dns;
pub mod config;
pub mod wire;
pub mod connect;
pub mod resolver;
pub mod establish;

pub use crate::addr::{IpAddress, Ipv4Address, Ipv6Address, SocketAddress};
pub use crate::connect::{ConnectError, Parallel, Race, Sequential, Step};
pub use crate::endpoint::{Endpoint, EndpointError, ToEndpoint};
pub use crate::resolver::ResolveError;
pub use crate::wire::AsyncResolver;
