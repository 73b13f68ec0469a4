//! Run a Nix devshell in a long-lived container, transparently: the wire
//! protocol between host client and container server, the decisions of both
//! ends of a connection, and the host-side control of the container.

pub mod client;
pub mod codec;
pub mod connection;
pub mod ctl;
pub mod devshell;
pub mod direnv;
pub mod environment;
pub mod json;
pub mod number;
pub mod order;
pub mod passthrough;
pub mod path;
pub mod pathname;
pub mod protocol;
pub mod server;
pub mod text;
