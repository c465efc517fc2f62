//! Values that cross the C interface.
#![allow(non_camel_case_types)]

use vstd::prelude::*;

use crate::config::Config;
use crate::constants::PROTOCOL_VERSION;
use crate::session_state::{state_code, SessionState};
use crate::transport_error::TransportError;

verus! {

/// Version of the C interface.
pub const GS_ABI_VERSION: u32 = 1;

/// Opaque handle of a session.
pub struct GsSessionHandle {
    _private: [u8; 0],
}

/// Outcome of a call.
#[derive(Debug, Clone, Copy, PartialEq, Eq, Structural)]
pub enum GsStatus {
    GS_OK,
    GS_ERR_NULL_POINTER,
    GS_ERR_INVALID_ARGUMENT,
    GS_ERR_IO,
    GS_ERR_TIMEOUT,
    GS_ERR_HANDSHAKE,
    GS_ERR_PROTOCOL,
    GS_ERR_INVALID_STATE,
    GS_ERR_CLOSED,
    GS_ERR_BUFFER_TOO_SMALL,
    GS_ERR_INTERNAL,
}

/// The number of each outcome.
pub open spec fn status_code(s: GsStatus) -> int {
    match s {
        GsStatus::GS_OK => 0,
        GsStatus::GS_ERR_NULL_POINTER => -1,
        GsStatus::GS_ERR_INVALID_ARGUMENT => -2,
        GsStatus::GS_ERR_IO => -3,
        GsStatus::GS_ERR_TIMEOUT => -4,
        GsStatus::GS_ERR_HANDSHAKE => -5,
        GsStatus::GS_ERR_PROTOCOL => -6,
        GsStatus::GS_ERR_INVALID_STATE => -7,
        GsStatus::GS_ERR_CLOSED => -8,
        GsStatus::GS_ERR_BUFFER_TOO_SMALL => -9,
        GsStatus::GS_ERR_INTERNAL => -99,
    }
}

impl GsStatus {
    /// The number of this outcome.
    pub fn code(self) -> (r: i32)
        ensures
            r == status_code(self),
    {
        match self {
            GsStatus::GS_OK => 0,
            GsStatus::GS_ERR_NULL_POINTER => -1,
            GsStatus::GS_ERR_INVALID_ARGUMENT => -2,
            GsStatus::GS_ERR_IO => -3,
            GsStatus::GS_ERR_TIMEOUT => -4,
            GsStatus::GS_ERR_HANDSHAKE => -5,
            GsStatus::GS_ERR_PROTOCOL => -6,
            GsStatus::GS_ERR_INVALID_STATE => -7,
            GsStatus::GS_ERR_CLOSED => -8,
            GsStatus::GS_ERR_BUFFER_TOO_SMALL => -9,
            GsStatus::GS_ERR_INTERNAL => -99,
        }
    }
}

/// State of a session.
#[derive(Debug, Clone, Copy, PartialEq, Eq, Structural)]
pub enum GsSessionState {
    GS_STATE_IDLE,
    GS_STATE_HANDSHAKING,
    GS_STATE_ACTIVE,
    GS_STATE_PAUSED,
    GS_STATE_CLOSING,
    GS_STATE_CLOSED,
    GS_STATE_ERROR,
    GS_STATE_RECONNECTING,
}

/// The number of each state.
pub open spec fn gs_state_code(s: GsSessionState) -> u8 {
    match s {
        GsSessionState::GS_STATE_IDLE => 0,
        GsSessionState::GS_STATE_HANDSHAKING => 1,
        GsSessionState::GS_STATE_ACTIVE => 2,
        GsSessionState::GS_STATE_PAUSED => 3,
        GsSessionState::GS_STATE_CLOSING => 4,
        GsSessionState::GS_STATE_CLOSED => 5,
        GsSessionState::GS_STATE_ERROR => 6,
        GsSessionState::GS_STATE_RECONNECTING => 7,
    }
}

impl GsSessionState {
    /// The number of this state.
    pub fn code(self) -> (r: u8)
        ensures
            r == gs_state_code(self),
    {
        match self {
            GsSessionState::GS_STATE_IDLE => 0,
            GsSessionState::GS_STATE_HANDSHAKING => 1,
            GsSessionState::GS_STATE_ACTIVE => 2,
            GsSessionState::GS_STATE_PAUSED => 3,
            GsSessionState::GS_STATE_CLOSING => 4,
            GsSessionState::GS_STATE_CLOSED => 5,
            GsSessionState::GS_STATE_ERROR => 6,
            GsSessionState::GS_STATE_RECONNECTING => 7,
        }
    }
}

/// The state as it crosses the interface.
pub open spec fn gs_state(s: SessionState) -> GsSessionState {
    match s {
        SessionState::Idle => GsSessionState::GS_STATE_IDLE,
        SessionState::Handshaking => GsSessionState::GS_STATE_HANDSHAKING,
        SessionState::Active => GsSessionState::GS_STATE_ACTIVE,
        SessionState::Paused => GsSessionState::GS_STATE_PAUSED,
        SessionState::Closing => GsSessionState::GS_STATE_CLOSING,
        SessionState::Closed => GsSessionState::GS_STATE_CLOSED,
        SessionState::Error => GsSessionState::GS_STATE_ERROR,
        SessionState::Reconnecting => GsSessionState::GS_STATE_RECONNECTING,
    }
}

impl From<SessionState> for GsSessionState {
    fn from(s: SessionState) -> (r: GsSessionState) {
        match s {
            SessionState::Idle => GsSessionState::GS_STATE_IDLE,
            SessionState::Handshaking => GsSessionState::GS_STATE_HANDSHAKING,
            SessionState::Active => GsSessionState::GS_STATE_ACTIVE,
            SessionState::Paused => GsSessionState::GS_STATE_PAUSED,
            SessionState::Closing => GsSessionState::GS_STATE_CLOSING,
            SessionState::Closed => GsSessionState::GS_STATE_CLOSED,
            SessionState::Error => GsSessionState::GS_STATE_ERROR,
            SessionState::Reconnecting => GsSessionState::GS_STATE_RECONNECTING,
        }
    }
}

impl vstd::std_specs::convert::FromSpecImpl<SessionState> for GsSessionState {
    open spec fn obeys_from_spec() -> bool {
        true
    }

    open spec fn from_spec(s: SessionState) -> GsSessionState {
        gs_state(s)
    }
}

/// A state has the same number on both sides of the interface.
pub proof fn state_number_is_kept(s: SessionState)
    ensures
        gs_state_code(gs_state(s)) == state_code(s),
{
}

/// Parameters of a session as they cross the interface.
#[derive(Debug, Clone, Copy, PartialEq, Eq, Structural)]
pub struct GsConfig {
    pub sample_rate: u32,
    pub channels: u8,
    pub frame_duration_ms: u8,
    pub max_bitrate: u32,
    pub codec_preferred: u8,
    pub capability_flags: u32,
    pub jitter_buffer_ms: u16,
    pub mtu: u32,
}

impl GsConfig {
    /// The parameters inside: both codecs are acceptable.
    pub fn to_config(&self) -> (r: Config)
        ensures
            r.sample_rate == self.sample_rate,
            r.channels == self.channels,
            r.frame_duration_ms == self.frame_duration_ms,
            r.max_bitrate == self.max_bitrate,
            r.codec_preferred == self.codec_preferred,
            r.supported_codecs@ == seq![1u8, 2u8],
            r.capability_flags == self.capability_flags,
            r.jitter_buffer_ms == self.jitter_buffer_ms,
            r.mtu == self.mtu,
    {
        let codecs: Vec<u8> = vec![0x01, 0x02];
        assert(codecs@ =~= seq![1u8, 2u8]);
        Config {
            sample_rate: self.sample_rate,
            channels: self.channels,
            frame_duration_ms: self.frame_duration_ms,
            max_bitrate: self.max_bitrate,
            codec_preferred: self.codec_preferred,
            supported_codecs: codecs,
            capability_flags: self.capability_flags,
            jitter_buffer_ms: self.jitter_buffer_ms,
            mtu: self.mtu as usize,
        }
    }
}

/// The default parameters as they cross the interface.
pub open spec fn default_gs_config() -> GsConfig {
    GsConfig {
        sample_rate: 48_000,
        channels: 1,
        frame_duration_ms: 20,
        max_bitrate: 64_000,
        codec_preferred: 1,
        capability_flags: 0,
        jitter_buffer_ms: 40,
        mtu: 1200,
    }
}

/// Fills in the default parameters.
pub fn gs_config_default(out: &mut GsConfig) -> (r: GsStatus)
    ensures
        *final(out) == default_gs_config(),
        r is GS_OK,
{
    let d: Config = Config::default();
    *out = GsConfig {
        sample_rate: d.sample_rate,
        channels: d.channels,
        frame_duration_ms: d.frame_duration_ms,
        max_bitrate: d.max_bitrate,
        codec_preferred: d.codec_preferred,
        capability_flags: d.capability_flags,
        jitter_buffer_ms: d.jitter_buffer_ms,
        mtu: d.mtu as u32,
    };
    GsStatus::GS_OK
}

/// Version of the wire protocol.
pub fn gs_protocol_version() -> (r: u32)
    ensures
        r == PROTOCOL_VERSION,
{
    PROTOCOL_VERSION as u32
}

/// Version of the C interface.
pub fn gs_abi_version() -> (r: u32)
    ensures
        r == GS_ABI_VERSION,
{
    GS_ABI_VERSION
}

/// Whether a frame of `n` bytes fits a buffer of `cap` bytes. The length that is
/// reported back is that of the frame either way.
pub fn recv_status(n: usize, cap: usize) -> (r: GsStatus)
    ensures
        r == if n > cap {
            GsStatus::GS_ERR_BUFFER_TOO_SMALL
        } else {
            GsStatus::GS_OK
        },
{
    if n > cap {
        GsStatus::GS_ERR_BUFFER_TOO_SMALL
    } else {
        GsStatus::GS_OK
    }
}

/// Whether a text of `n` bytes and its terminator fit a buffer of `cap` bytes.
pub fn text_status(n: usize, cap: usize) -> (r: GsStatus)
    ensures
        r == if n + 1 > cap {
            GsStatus::GS_ERR_BUFFER_TOO_SMALL
        } else {
            GsStatus::GS_OK
        },
{
    if n >= cap {
        GsStatus::GS_ERR_BUFFER_TOO_SMALL
    } else {
        GsStatus::GS_OK
    }
}

/// The outcome of a handshake with the first client that comes.
pub fn accept_any_status(outcome: &Result<(), TransportError>) -> (r: GsStatus)
    ensures
        r == match *outcome {
            Ok(_) => GsStatus::GS_OK,
            Err(TransportError::PeerClosed(_)) => GsStatus::GS_ERR_CLOSED,
            Err(TransportError::Closed) => GsStatus::GS_ERR_CLOSED,
            Err(_) => GsStatus::GS_ERR_HANDSHAKE,
        },
{
    match outcome {
        Ok(_) => GsStatus::GS_OK,
        Err(TransportError::PeerClosed(_)) => GsStatus::GS_ERR_CLOSED,
        Err(TransportError::Closed) => GsStatus::GS_ERR_CLOSED,
        Err(_) => GsStatus::GS_ERR_HANDSHAKE,
    }
}

/// A signed number modulo `m`.
pub open spec fn wrapped(x: i32, m: int) -> int {
    x as int % m
}

/// The parameters of a session that the Java side asks for. Its signed numbers
/// are taken modulo the width of the fields.
pub fn jni_config(sample_rate: i32, channels: i32) -> (r: GsConfig)
    ensures
        r == (GsConfig {
            sample_rate: wrapped(sample_rate, 0x1_0000_0000) as u32,
            channels: wrapped(channels, 0x100) as u8,
            frame_duration_ms: 20,
            max_bitrate: 64_000,
            codec_preferred: 1,
            capability_flags: 0,
            jitter_buffer_ms: 60,
            mtu: 1200,
        }),
{
    let rate: u64 = (sample_rate as i64 + 0x1_0000_0000) as u64 % 0x1_0000_0000;
    let chans: u64 = (channels as i64 + 0x1_0000_0000) as u64 % 0x100;
    GsConfig {
        sample_rate: rate as u32,
        channels: chans as u8,
        frame_duration_ms: 20,
        max_bitrate: 64_000,
        codec_preferred: 0x01,
        capability_flags: 0,
        jitter_buffer_ms: 60,
        mtu: 1200,
    }
}

/// The numbers that cross the interface: outcomes count down from zero, and states up.
pub proof fn interface_numbers()
    ensures
        status_code(GsStatus::GS_OK) == 0,
        status_code(GsStatus::GS_ERR_NULL_POINTER) == -1,
        status_code(GsStatus::GS_ERR_INVALID_ARGUMENT) == -2,
        status_code(GsStatus::GS_ERR_IO) == -3,
        status_code(GsStatus::GS_ERR_TIMEOUT) == -4,
        status_code(GsStatus::GS_ERR_HANDSHAKE) == -5,
        status_code(GsStatus::GS_ERR_PROTOCOL) == -6,
        status_code(GsStatus::GS_ERR_INVALID_STATE) == -7,
        status_code(GsStatus::GS_ERR_CLOSED) == -8,
        status_code(GsStatus::GS_ERR_BUFFER_TOO_SMALL) == -9,
        status_code(GsStatus::GS_ERR_INTERNAL) == -99,
        gs_state_code(gs_state(SessionState::Idle)) == 0,
        gs_state_code(gs_state(SessionState::Handshaking)) == 1,
        gs_state_code(gs_state(SessionState::Active)) == 2,
        gs_state_code(gs_state(SessionState::Paused)) == 3,
        gs_state_code(gs_state(SessionState::Closing)) == 4,
        gs_state_code(gs_state(SessionState::Closed)) == 5,
        gs_state_code(gs_state(SessionState::Error)) == 6,
        gs_state_code(gs_state(SessionState::Reconnecting)) == 7,
        gs_state(SessionState::Active) is GS_STATE_ACTIVE,
        gs_state(SessionState::Closed) is GS_STATE_CLOSED,
{
}

/// A signed number keeps its lower bits: one that is not negative and fits stays as it
/// is, and minus one becomes the largest.
pub proof fn signed_numbers_wrap(x: i32)
    ensures
        x >= 0 ==> wrapped(x, 0x1_0000_0000) == x,
        x < 0 ==> wrapped(x, 0x1_0000_0000) == x + 0x1_0000_0000,
        0 <= wrapped(x, 0x100) < 256,
        0 <= x < 256 ==> wrapped(x, 0x100) == x,
        (x - wrapped(x, 0x100)) % 256 == 0,
{
}

/// The default parameters across the interface: 48 kHz, one channel, frames of 20 ms,
/// 64 kbit/s, uncompressed audio first, 40 ms of jitter buffer and an MTU of 1200.
pub proof fn interface_defaults()
    ensures
        ({
            let c = default_gs_config();
            &&& c.sample_rate == 48_000 && c.channels == 1 && c.frame_duration_ms == 20
            &&& c.max_bitrate == 64_000 && c.codec_preferred == 1 && c.capability_flags == 0
            &&& c.jitter_buffer_ms == 40 && c.mtu == 1200
        }),
{
}

/// What fits a buffer: a frame that is not longer, and a text that is shorter, since its
/// end is marked.
pub proof fn what_fits_a_buffer(n: usize, cap: usize, frame: GsStatus, text: GsStatus)
    requires
        call_ensures(recv_status, (n, cap), frame),
        call_ensures(text_status, (n, cap), text),
    ensures
        frame == GsStatus::GS_OK <==> n <= cap,
        frame != GsStatus::GS_OK ==> frame == GsStatus::GS_ERR_BUFFER_TOO_SMALL,
        text == GsStatus::GS_OK <==> n < cap,
        text != GsStatus::GS_OK ==> text == GsStatus::GS_ERR_BUFFER_TOO_SMALL,
{
}

/// How a handshake with anyone ends across the interface.
pub proof fn handshake_outcomes(outcome: &Result<(), TransportError>, r: GsStatus)
    requires
        call_ensures(accept_any_status, (outcome,), r),
    ensures
        *outcome is Ok <==> r == GsStatus::GS_OK,
        (*outcome matches Err(e) && (e is PeerClosed || e is Closed)) <==> r
            == GsStatus::GS_ERR_CLOSED,
        *outcome is Err && r != GsStatus::GS_ERR_CLOSED ==> r == GsStatus::GS_ERR_HANDSHAKE,
{
}

/// Parameters cross the interface as they are; both codecs are acceptable then.
pub proof fn parameters_cross(c: &GsConfig, r: Config)
    requires
        call_ensures(GsConfig::to_config, (c,), r),
    ensures
        r.sample_rate == c.sample_rate && r.channels == c.channels,
        r.frame_duration_ms == c.frame_duration_ms && r.max_bitrate == c.max_bitrate,
        r.codec_preferred == c.codec_preferred && r.capability_flags == c.capability_flags,
        r.jitter_buffer_ms == c.jitter_buffer_ms && r.mtu == c.mtu,
        r.supported_codecs@.contains(1) && r.supported_codecs@.contains(2),
        r.supported_codecs@.len() == 2,
{
    assert(seq![1u8, 2u8][0] == 1 && seq![1u8, 2u8][1] == 2);
}

} // verus!
