//! Protocol constants.
use vstd::prelude::*;

verus! {

/// The magic bytes `"GS"` that open every packet.
pub const MAGIC_BYTES: [u8; 2] = [0x47, 0x53];

/// Protocol version implemented here.
pub const PROTOCOL_VERSION: u8 = 0x01;

/// Lowest version accepted in negotiation.
pub const PROTOCOL_VERSION_MIN: u8 = 0x01;

/// Highest version accepted in negotiation.
pub const PROTOCOL_VERSION_MAX: u8 = 0x01;

/// Size of the header in bytes.
pub const HEADER_SIZE: usize = 24;

/// Default effective MTU: it leaves room for IP and UDP headers.
pub const DEFAULT_MTU: usize = 1200;

/// Default upper bound of a payload.
pub const MAX_PAYLOAD_SIZE: usize = DEFAULT_MTU - HEADER_SIZE;

/// Most fragments that one large frame may have.
pub const MAX_FRAGMENTS: u16 = 16;

/// Size of the fragmentation sub-header at the start of a payload.
pub const FRAGMENT_SUBHEADER_SIZE: usize = 4;

/// Default sample rate in Hz.
pub const DEFAULT_SAMPLE_RATE: u32 = 48_000;

/// Default duration of an audio frame in ms.
pub const DEFAULT_FRAME_DURATION_MS: u8 = 20;

/// Default depth of the jitter buffer in ms.
pub const DEFAULT_JITTER_BUFFER_MS: u16 = 40;

/// Default bitrate ceiling in bits per second.
pub const DEFAULT_MAX_BITRATE: u32 = 64_000;

/// Interval between heartbeats in ms when there is no other traffic.
pub const HEARTBEAT_INTERVAL_MS: u64 = 1_000;

/// Silence in ms after which the peer counts as dead.
pub const HEARTBEAT_TIMEOUT_MS: u64 = 10_000;

/// Longest a handshake may take, in ms.
pub const HANDSHAKE_TIMEOUT_MS: u64 = 10_000;

/// First wait of a client that retries its handshake, in ms.
pub const HANDSHAKE_RETRY_BASE_MS: u64 = 200;

/// Time granted to answer a close before it is forced, in ms.
pub const CLOSE_GRACE_MS: u64 = 500;

/// Size of the loss bitmap window.
pub const LOSS_WINDOW_SIZE: u32 = 64;

/// Frames in one group of the XOR forward error correction.
pub const FEC_WINDOW: u8 = 4;

/// Lowest bitrate that congestion control may choose, in bits per second.
pub const CONGESTION_MIN_BITRATE: u32 = 8_000;

/// Additive increment of congestion control per cycle, in bits per second.
pub const CONGESTION_AIMD_INCREMENT: u32 = 2_000;

/// Offset of `payload_len` (u16 BE) from the end of a packet.
pub const PAYLOAD_LEN_TAIL_OFFSET: usize = 4;

/// Offset of the checksum (u16 BE) from the end of a packet.
pub const CHECKSUM_TAIL_OFFSET: usize = 2;

} // verus!
