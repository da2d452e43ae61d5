//! Verified core of a multi-target ICMP reachability prober.
//!
//! The library covers the packet codec (echo request encoding, Internet
//! checksum, echo reply and IPv4 header decoding), the per-host statistics
//! counters, and the host tracking table that correlates asynchronously
//! arriving replies with previously sent requests and detects timeouts.
//! Socket I/O, threads, logging and table rendering live outside the
//! library, which they drive through plain values.

pub mod cli;
pub mod codec;
pub mod ipv4;
pub mod stats;
pub mod tracks;
pub mod util;
