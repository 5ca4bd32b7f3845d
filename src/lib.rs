//! A multi-target ICMP liveness prober: echo-request packet construction,
//! a registry of probe targets, and the per-round decisions that match
//! replies to requests and report unanswered targets as idle.

pub mod addr;
pub mod packet;
pub mod ping;
