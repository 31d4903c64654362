//! Finds the first publicly routable hop on the way out of the local network,
//! then keeps measuring the latency to it.
//!
//! `discovery` walks the path one TTL at a time and stops at the first public
//! IPv4 address; `monitor` decides, outcome by outcome, what the latency
//! monitor records, when it waits and when it reopens a session.
pub mod address;
pub mod config;
pub mod discovery;
pub mod monitor;
