//! Client side of a game server's remote-console protocol: packet framing,
//! the authentication handshake, command/response correlation, reassembly of
//! fragmented responses, the cached-connection policy and the parsers of the
//! typed console commands; beside it, the server's properties file and its
//! world directories.
pub mod actor;
pub mod client;
pub mod config;
pub mod error;
pub mod menu;
pub mod packet;
pub mod properties;
pub mod rcon;
pub mod text;
pub mod user;
pub mod world;
