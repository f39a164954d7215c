//! A relay between a game server and a chat platform: the wire codec of the
//! remote-console protocol, the console session's request numbering, the
//! command formatter, and the orchestrator that decides what reaches the sink.
pub mod auth;
pub mod codec;
pub mod config;
pub mod error;
pub mod format;
pub mod legacy;
pub mod relay;
pub mod session;
pub mod webhook;
