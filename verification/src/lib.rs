//! LAN discovery proxy for Bedrock servers: packet formats, proxy state and relay decisions.

pub mod cli;
pub mod client_map;
pub mod laws;
pub mod net;
pub mod nethernet;
pub mod proto;
pub mod proxy;
pub mod raknet;
pub mod relay;
pub mod relay_host;
pub mod relay_player;
pub mod text;

pub use proxy::{ProxyPrefs, ProxyServer, ServerProtocol};
