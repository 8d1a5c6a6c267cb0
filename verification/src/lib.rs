//! A TURN server library: the STUN/TURN message codec, HMAC-SHA1 message
//! integrity, long-term credential handling with replay-resistant nonces,
//! per-client allocations with permissions and channel bindings, and the
//! per-packet dispatch from datagram to reply or relay action.
//!
//! Sockets, the clock and the task runtime stay outside: the handlers take
//! the current time as a plain tick count and return the bytes to send.

pub mod addr;
pub mod allocate;
pub mod allocation;
pub mod assoc;
pub mod attributes;
pub mod auth;
pub mod bytebuf;
pub mod channel;
pub mod data;
pub mod errors;
pub mod handler;
pub mod integrity;
pub mod message;
pub mod permission;
pub mod refresh;
pub mod rng;
pub mod util;
pub mod xoraddr;
