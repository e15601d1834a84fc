//! Launching an RPC server on a remote host through an existing remote-shell
//! session, and speaking to it.
//!
//! The crate holds the decisions of that procedure: the handshake line that a
//! freshly started server announces itself with, the bookkeeping of what a
//! remote command printed and how it ended, the order in which the remote
//! commands of a launch are issued, and the version gate in front of the RPC
//! transport. The remote-shell session itself is driven by the caller.

pub mod client;
pub mod decimal;
pub mod error;
pub mod handshake;
pub mod hex;
pub mod ipv6;
pub mod net;
pub mod text;
pub mod transport;

pub use error::RpcError;
pub use handshake::{HandshakeInformation, NetworkType, ParseHandshakeError, Protcol};
