//! Unix domain socket stream links: the addresses, locators, error texts and protocols of a
//! transport that listens on and connects to `unixsock-stream/<path>` endpoints.

pub mod accept;
pub mod address;
pub mod connect;
pub mod endpoint;
pub mod error;
pub mod identity;
pub mod laws;
pub mod lifecycle;
pub mod link;
pub mod listen;
pub mod manager;
pub mod parameters;
pub mod release;
pub mod text;

pub use address::SocketAddr;
pub use endpoint::{EndPoint, Locator};
pub use error::LinkError;
pub use link::{LinkAuthId, LinkUnicastUnixSocketStream};
pub use manager::{LinkManagerUnicastUnixSocketStream, ListenerUnixSocketStream};
