//! Crafting and inspection of raw link-layer frames carrying IPv4, ARP and
//! ICMP payloads: wire-format codecs for the three header kinds, the shared
//! one's-complement checksum, the ARP request/reply exchange, and the two
//! passive consumption loops (protocol tally and predicate filter).

pub mod arp;
pub mod capture;
pub mod checksum;
pub mod frame;
pub mod head;
