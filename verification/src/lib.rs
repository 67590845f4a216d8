//! Addresses for sockets that may be internet sockets or UNIX domain sockets,
//! and the decisions taken when a listener claims a socket path that another
//! process may have left behind.
//!
//! The crate holds no socket. It parses and prints addresses, and it decides,
//! step by step, what a caller that owns the sockets does next.

pub mod text;
pub mod inet;
pub mod roundtrip;
pub mod addr;
pub mod reuse;

pub use addr::AddrModel;
pub use addr::AddrParseError;
pub use addr::SocketAddr;
pub use inet::InetAddr;
pub use inet::Ipv4;
pub use inet::Ipv6;
pub use reuse::Action;
pub use reuse::Awaiting;
pub use reuse::BindReuse;
pub use reuse::ErrorKind;
pub use reuse::Event;
pub use reuse::Findings;
pub use reuse::Next;
