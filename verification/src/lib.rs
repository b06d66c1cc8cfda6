//! Stable connection tooling: SSH port forwarding that reconnects, and TCP bridging.

pub mod auth;
pub mod bridge;
pub mod cli;
pub mod client;
pub mod endpoint;
pub mod error;
pub mod ssh_config;
pub mod ssh_forward;
pub mod text;
pub mod tunnel;
