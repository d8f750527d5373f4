//! HardLight: a realtime, low-latency, encrypted RPC protocol over WebSockets.
//!
//! A client connects to a server, calls functions on it, and holds a copy of the
//! connection state, which the server keeps up to date. This crate is what the two
//! sides decide and compute: the messages and the IDs of calls ([`wire`], [`calls`]), what
//! each side does on an event ([`client_loop`], [`server_loop`], [`topic`]), how the two
//! work together ([`session`], [`delivery`], [`service`]), the handshake ([`version`],
//! [`client`], [`server`]), the connection state ([`state`]), and what a service's trait
//! expands to ([`naming`], [`expansion`], [`plans`]). Sockets, TLS and tasks are left to the
//! program around it.

pub mod application;
pub mod bytes;
pub mod calls;
pub mod client;
pub mod client_loop;
pub mod codec;
pub mod compression;
pub mod counter;
pub mod delivery;
pub mod expansion;
pub mod naming;
pub mod pem;
pub mod plans;
pub mod server;
pub mod server_loop;
pub mod service;
pub mod session;
pub mod state;
pub mod text;
pub mod topic;
pub mod version;
pub mod wire;

pub use crate::client::{Client, ClientConfig, ClientState};
pub use crate::compression::{deflate, inflate};
pub use crate::expansion::{codable, connection_state, rpc, rpc_handler};
pub use crate::server::{Server, ServerConfig};
pub use crate::topic::Topic;
pub use crate::version::HL_VERSION;
pub use crate::wire::{ClientMessage, HandlerResult, RpcHandlerError, ServerMessage};
