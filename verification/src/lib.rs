//! The core of a static proxy-ARP responder.
//!
//! A responder answers ARP requests in the name of hosts that it is
//! configured with. This crate holds what it decides and computes, and does
//! no input or output:
//!
//! - `address`: IPv4 and MAC addresses and the parsing of their literals;
//! - `host`: a configured host, and the table of hosts with its lookup;
//! - `frame`: the wire format of Ethernet headers and ARP packets;
//! - `responder`: which frames are answered with what, and the cycle of
//!   receiving, evaluating and replying that a driver runs.

pub mod address;
pub mod frame;
pub mod host;
pub mod responder;

pub use crate::address::{Ipv4Address, MacAddress};
pub use crate::frame::forge_arp_response;
pub use crate::host::{find_host_by_ip, new_host, ConfigError, Host, HostTable};
pub use crate::responder::respond_arp_queries;
