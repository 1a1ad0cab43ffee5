//! Verified core of a SOCKS5 tunnelling proxy: connection lines, hubs that
//! pair them, the client-hello shuffle framing, and the small decision
//! functions around them.

pub mod sni;
pub mod text;
pub mod gate;
pub mod hub;
pub mod config;
pub mod log;
pub mod hub_header;
pub mod server;
