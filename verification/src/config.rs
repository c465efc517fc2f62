//! Parameters of a session.
use vstd::prelude::*;

use crate::constants::{
    CONGESTION_MIN_BITRATE, DEFAULT_FRAME_DURATION_MS, DEFAULT_JITTER_BUFFER_MS,
    DEFAULT_MAX_BITRATE, DEFAULT_MTU, DEFAULT_SAMPLE_RATE,
};
use crate::jitter_buffer::ring_size;

verus! {

/// Side that a session takes in the handshake.
#[derive(Debug, Clone, Copy, PartialEq, Eq, Structural)]
pub enum SessionRole {
    /// Starts the handshake.
    Client,
    /// Answers the handshake.
    Server,
}

/// Parameters that a session negotiates or keeps to.
#[derive(Debug, Clone)]
pub struct Config {
    pub sample_rate: u32,
    pub channels: u8,
    pub frame_duration_ms: u8,
    pub max_bitrate: u32,
    /// Preferred codec (1 = PCM, 2 = Opus).
    pub codec_preferred: u8,
    /// Codecs that are acceptable, best first.
    pub supported_codecs: Vec<u8>,
    /// Capabilities, one bit each, as the application defines them.
    pub capability_flags: u32,
    /// Depth of the jitter buffer in ms.
    pub jitter_buffer_ms: u16,
    /// Effective MTU in bytes.
    pub mtu: usize,
}

impl Default for Config {
    fn default() -> (r: Config)
        ensures
            r.sample_rate == 48_000,
            r.channels == 1,
            r.frame_duration_ms == 20,
            r.max_bitrate == 64_000,
            r.codec_preferred == 1,
            r.supported_codecs@ == seq![1u8, 2u8],
            r.capability_flags == 0,
            r.jitter_buffer_ms == 40,
            r.mtu == 1200,
            r.usable(),
    {
        let codecs: Vec<u8> = vec![0x01, 0x02];
        assert(codecs@ =~= seq![1u8, 2u8]);
        Config {
            sample_rate: DEFAULT_SAMPLE_RATE,
            channels: 1,
            frame_duration_ms: DEFAULT_FRAME_DURATION_MS,
            max_bitrate: DEFAULT_MAX_BITRATE,
            codec_preferred: 0x01,
            supported_codecs: codecs,
            capability_flags: 0,
            jitter_buffer_ms: DEFAULT_JITTER_BUFFER_MS,
            mtu: DEFAULT_MTU,
        }
    }
}

/// Frames that a buffer of `buffer_ms` holds, at least one.
pub open spec fn frames_in(buffer_ms: u16, frame_ms: u8) -> int {
    let frame = if frame_ms == 0 {
        1int
    } else {
        frame_ms as int
    };
    if buffer_ms as int / frame == 0 {
        1
    } else {
        buffer_ms as int / frame
    }
}

/// The least power of two that is at least `frames` and at least 16, for up to
/// 65536 frames.
pub open spec fn slots_for(frames: int) -> int {
    if frames <= 16 {
        16
    } else if frames <= 32 {
        32
    } else if frames <= 64 {
        64
    } else if frames <= 128 {
        128
    } else if frames <= 256 {
        256
    } else if frames <= 512 {
        512
    } else if frames <= 1024 {
        1024
    } else if frames <= 2048 {
        2048
    } else if frames <= 4096 {
        4096
    } else if frames <= 8192 {
        8192
    } else if frames <= 16384 {
        16384
    } else if frames <= 32768 {
        32768
    } else {
        65536
    }
}

/// Slots of the jitter buffer for a depth in ms.
pub fn jitter_slots(buffer_ms: u16, frame_ms: u8) -> (r: u32)
    ensures
        r == slots_for(frames_in(buffer_ms, frame_ms)),
        r <= 2048 ==> ring_size(r),
{
    let frame: u16 = if frame_ms == 0 {
        1
    } else {
        frame_ms as u16
    };
    let whole: u16 = buffer_ms / frame;
    let frames: u32 = if whole == 0 {
        1
    } else {
        whole as u32
    };
    let mut slots: u32 = 16;
    while slots < frames
        invariant
            frames <= 0xFFFF,
            slots <= 65536,
            slots == slots_for(slots as int),
            slots <= slots_for(frames as int),
            slots >= frames ==> slots == slots_for(frames as int),
        decreases 65536 - slots,
    {
        slots = slots * 2;
    }
    slots
}

impl Config {
    /// A session can run on these parameters: the bitrate ceiling is not below
    /// the floor of congestion control, and the jitter buffer fits the largest
    /// ring.
    pub open spec fn usable(&self) -> bool {
        &&& self.max_bitrate >= CONGESTION_MIN_BITRATE
        &&& slots_for(frames_in(self.jitter_buffer_ms, self.frame_duration_ms)) <= 2048
    }

    /// Whether a session can run on these parameters.
    pub fn is_usable(&self) -> (r: bool)
        ensures
            r == self.usable(),
    {
        self.max_bitrate >= CONGESTION_MIN_BITRATE && jitter_slots(
            self.jitter_buffer_ms,
            self.frame_duration_ms,
        ) <= 2048
    }

    /// Whether `codec` is acceptable.
    pub fn supports(&self, codec: u8) -> (r: bool)
        ensures
            r == self.supported_codecs@.contains(codec),
    {
        let mut i: usize = 0;
        while i < self.supported_codecs.len()
            invariant
                i <= self.supported_codecs@.len(),
                forall|j: int| 0 <= j < i ==> self.supported_codecs@[j] != codec,
            decreases self.supported_codecs@.len() - i,
        {
            if self.supported_codecs[i] == codec {
                return true;
            }
            i = i + 1;
        }
        false
    }
}

/// The ring of a jitter buffer is large enough for its depth, has at least 16 slots, is
/// a power of two, and is no larger than it has to be.
pub proof fn ring_fits_the_depth(buffer_ms: u16, frame_ms: u8)
    ensures
        ({
            let frames = frames_in(buffer_ms, frame_ms);
            let slots = slots_for(frames);
            let ms = if frame_ms == 0 {
                1int
            } else {
                frame_ms as int
            };
            &&& frames >= 1
            &&& buffer_ms >= ms ==> frames == buffer_ms as int / ms
            &&& buffer_ms < ms ==> frames == 1
            &&& slots >= frames
            &&& slots >= 16
            &&& slots > 16 ==> slots / 2 < frames
            &&& exists|k: nat| k <= 12 && slots == 16 * #[trigger] vstd::arithmetic::power2::pow2(k)
        }),
{
    let frames = frames_in(buffer_ms, frame_ms);
    let slots = slots_for(frames);
    let ms = if frame_ms == 0 {
        1int
    } else {
        frame_ms as int
    };
    assert(buffer_ms < ms ==> buffer_ms as int / ms == 0) by (nonlinear_arith)
        requires
            ms >= 1,
    ;
    assert(buffer_ms >= ms ==> buffer_ms as int / ms >= 1) by (nonlinear_arith)
        requires
            ms >= 1,
    ;
    assert(buffer_ms as int / ms <= 0xFFFF) by (nonlinear_arith)
        requires
            ms >= 1,
            buffer_ms <= 0xFFFF,
    ;
    vstd::arithmetic::power2::lemma2_to64();
    let k: nat = if slots == 16 {
        0
    } else if slots == 32 {
        1
    } else if slots == 64 {
        2
    } else if slots == 128 {
        3
    } else if slots == 256 {
        4
    } else if slots == 512 {
        5
    } else if slots == 1024 {
        6
    } else if slots == 2048 {
        7
    } else if slots == 4096 {
        8
    } else if slots == 8192 {
        9
    } else if slots == 16384 {
        10
    } else if slots == 32768 {
        11
    } else {
        12
    };
    assert(slots == 16 * vstd::arithmetic::power2::pow2(k));
}

impl Config {
    /// A session can run where the bitrate ceiling is at least 8000 bits per second and
    /// the jitter buffer holds at most 2048 frames.
    pub proof fn usable_in_numbers(&self)
        ensures
            self.usable() <==> self.max_bitrate >= 8_000 && frames_in(
                self.jitter_buffer_ms,
                self.frame_duration_ms,
            ) <= 2048,
    {
    }
}

/// A codec is supported where the list holds it, and parameters are usable within their
/// limits.
pub proof fn parameters_in_numbers(c: &Config, codec: u8, supported: bool, usable: bool)
    requires
        call_ensures(Config::supports, (c, codec), supported),
        call_ensures(Config::is_usable, (c,), usable),
    ensures
        supported <==> exists|i: int|
            0 <= i < c.supported_codecs@.len() && c.supported_codecs@[i] == codec,
        usable <==> c.max_bitrate >= 8_000 && frames_in(c.jitter_buffer_ms, c.frame_duration_ms)
            <= 2048,
{
}

/// The slots of a jitter buffer: a power of two, at least 16, that its frames fit, and no
/// larger than it has to be.
pub proof fn slots_fit(buffer_ms: u16, frame_ms: u8, r: u32)
    requires
        call_ensures(jitter_slots, (buffer_ms, frame_ms), r),
        frame_ms > 0,
    ensures
        r >= 16,
        r >= buffer_ms as int / frame_ms as int,
        r > 16 ==> r / 2 < buffer_ms as int / frame_ms as int,
        exists|k: nat| k <= 12 && r == 16 * #[trigger] vstd::arithmetic::power2::pow2(k),
{
    ring_fits_the_depth(buffer_ms, frame_ms);
}

} // verus!
