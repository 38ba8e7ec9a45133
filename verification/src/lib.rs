//! Split-tunnel traffic routing: packet classification against a VPN prefix,
//! link-layer frame construction, and a routing-table takeover that can always
//! be unwound.

pub mod addr;
pub mod config;
pub mod controller;
pub mod frame;
pub mod interface;
pub mod laws;
pub mod packet;
pub mod reroute_server;
pub mod resolver;
pub mod route;
pub mod utils;
pub mod vpn_server;
