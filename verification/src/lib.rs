//! Core of a user-space TCP/IP stack: a deterministically clocked,
//! single-threaded engine that drives Ethernet II / ARP / IPv4 / ICMPv4 /
//! UDP / TCP state machines over a raw frame transport.  All progress is
//! driven by an external `advance_clock` tick; the complete observable
//! output is a queue of events.

pub mod clock;
pub mod fail;
pub mod ip;
pub mod mac;
pub mod wire;
pub mod frames;
pub mod segment;
pub mod entropy;
pub mod options;
pub mod event;
pub mod arp;
pub mod engine;
pub mod arp_cache;
pub mod icmp;
pub mod udp;
pub mod runtime;
pub mod task;
pub mod tcp;
