//! The link layer of a packet-radio mesh: the on-air frame codec, the
//! message variants carried in frame payloads, the transmit rate limiter,
//! the half-duplex arbitration state machine, and the line protocol spoken
//! with the radio over its serial command interface.

pub mod arbiter;
pub mod codec;
pub mod error;
pub mod limiter;
pub mod message;
pub mod protocol;
