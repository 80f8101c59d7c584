//! A DNS filtering proxy engine: a blocklist of domain names with
//! parent-suffix matching, and the per-datagram decisions of the proxy.

pub mod blocklist;
pub mod clock;
pub mod dns_server;
pub mod names;
pub mod rules;
pub mod wire;
