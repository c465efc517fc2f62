//! Gravital Talk: a real-time audio transport with a verified core.
//!
//! The wire format, the handshake, the session rules, forward error correction,
//! the jitter buffer, congestion control and the relay carry contracts that Verus
//! proves. The proofs rest on the items marked as external, whose contracts state
//! what the outside crates and the standard library do and are believed. Of what
//! is drawn at random nothing is promised.
use vstd::prelude::*;

pub mod addr;
pub mod checksum;
pub mod cli;
pub mod config;
pub mod congestion;
pub mod constants;
pub mod counters;
pub mod crypto;
pub mod discovery;
pub mod error;
pub mod fec;
pub mod ffi;
pub mod handshake;
pub mod header;
pub mod jitter_buffer;
pub mod keys;
pub mod message;
pub mod observability;
pub mod offsets;
pub mod packet;
pub mod payload_bytes;
pub mod phantom;
pub mod relay;
pub mod relay_config;
pub mod relay_metrics;
pub mod rooms;
pub mod router;
pub mod session;
pub mod session_state;
pub mod stream;
pub mod stun;
pub mod text;
pub mod tone;
pub mod transport_error;
pub mod wire;

verus! {

} // verus!
