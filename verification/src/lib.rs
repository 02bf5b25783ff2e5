//! Verified core of a remote cargo runner: the wire protocol between the
//! client and the shim it installs on the remote host, the command lines the
//! client builds, and the decisions of both sides.
pub mod ext;
pub mod text;
pub mod num;
pub mod protocol;
pub mod protocol_laws;
pub mod wire;
pub mod ssh;
pub mod config;
pub mod cli;
pub mod plan;
pub mod sandbox;
pub mod remote;
pub mod bootstrap;
pub mod client;
pub mod sync_session;
pub mod shim;
pub mod session;
pub mod confine;
pub mod balance;
pub mod proxy;
