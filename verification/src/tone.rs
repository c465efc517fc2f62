//! PCM audio as bytes, and the length of the push-to-talk tones.
use vstd::prelude::*;

verus! {

/// Duration of the tone when push-to-talk is pressed, in ms.
pub const PTT_PRESS_DURATION_MS: u32 = 100;

/// Duration of the tone when push-to-talk is released, in ms.
pub const PTT_RELEASE_DURATION_MS: u32 = 80;

/// A sample as an unsigned number, in two's complement.
pub open spec fn unsigned_sample(s: i16) -> int {
    if s < 0 {
        s + 0x1_0000
    } else {
        s as int
    }
}

/// The sample that an unsigned number stands for.
pub open spec fn signed_sample(u: int) -> i16 {
    if u >= 0x8000 {
        (u - 0x1_0000) as i16
    } else {
        u as i16
    }
}

/// The bytes of samples, least significant first.
pub open spec fn pcm_bytes(samples: Seq<i16>) -> Seq<u8> {
    Seq::new(
        samples.len() * 2,
        |j: int|
            if j % 2 == 0 {
                (unsigned_sample(samples[j / 2]) % 256) as u8
            } else {
                (unsigned_sample(samples[j / 2]) / 256) as u8
            },
    )
}

/// The samples that bytes stand for, two bytes each.
pub open spec fn pcm_samples(bytes: Seq<u8>) -> Seq<i16> {
    Seq::new(bytes.len() / 2, |i: int| signed_sample(bytes[2 * i] + bytes[2 * i + 1] * 256))
}

/// Reading the bytes of samples back gives the samples.
pub proof fn pcm_round_trip(samples: Seq<i16>)
    ensures
        pcm_samples(pcm_bytes(samples)) == samples,
{
    let bytes = pcm_bytes(samples);
    assert forall|i: int| 0 <= i < samples.len() implies pcm_samples(bytes)[i] == samples[i] by {
        assert((2 * i) / 2 == i && (2 * i + 1) / 2 == i && (2 * i) % 2 == 0 && (2 * i + 1) % 2
            == 1);
        let u = unsigned_sample(samples[i]);
        assert(bytes[2 * i] == (u % 256) as u8);
        assert(bytes[2 * i + 1] == (u / 256) as u8);
    }
    assert(pcm_samples(bytes) =~= samples);
}

/// Turns samples into bytes.
pub fn pcm_to_bytes(samples: &[i16]) -> (r: Vec<u8>)
    requires
        samples@.len() * 2 <= usize::MAX,
    ensures
        r@ == pcm_bytes(samples@),
{
    let mut out: Vec<u8> = Vec::with_capacity(samples.len() * 2);
    let mut i: usize = 0;
    while i < samples.len()
        invariant
            i <= samples@.len(),
            out@ == pcm_bytes(samples@.take(i as int)),
        decreases samples@.len() - i,
    {
        let s: i16 = samples[i];
        let u: u16 = if s < 0 {
            (s as i32 + 0x1_0000) as u16
        } else {
            s as u16
        };
        let ghost before = out@;
        out.push((u % 256) as u8);
        out.push((u / 256) as u8);
        i = i + 1;
        proof {
            let head = samples@.take(i as int);
            assert forall|j: int| 0 <= j < out@.len() implies out@[j] == pcm_bytes(head)[j] by {
                if j < before.len() {
                    assert(before[j] == pcm_bytes(samples@.take(i - 1))[j]);
                    assert(head[j / 2] == samples@.take(i - 1)[j / 2]);
                }
            }
            assert(out@ =~= pcm_bytes(head));
        }
    }
    assert(samples@.take(i as int) =~= samples@);
    out
}

/// Turns bytes into samples; a last odd byte is left out.
pub fn pcm_from_bytes(bytes: &[u8]) -> (r: Vec<i16>)
    ensures
        r@ == pcm_samples(bytes@),
{
    let mut out: Vec<i16> = Vec::with_capacity(bytes.len() / 2);
    let mut i: usize = 0;
    while i < bytes.len() / 2
        invariant
            i <= bytes@.len() / 2,
            out@ == pcm_samples(bytes@).take(i as int),
        decreases bytes@.len() / 2 - i,
    {
        let u: i32 = bytes[2 * i] as i32 + bytes[2 * i + 1] as i32 * 256;
        let s: i16 = if u >= 0x8000 {
            (u - 0x1_0000) as i16
        } else {
            u as i16
        };
        out.push(s);
        i = i + 1;
        assert(out@ =~= pcm_samples(bytes@).take(i as int));
    }
    assert(out@ =~= pcm_samples(bytes@));
    out
}

/// Samples of a tone.
pub fn tone_samples(duration_ms: u32, sample_rate: u32) -> (r: u64)
    ensures
        r == sample_rate * duration_ms / 1000,
{
    assert(sample_rate * duration_ms <= 0xFFFF_FFFF * 0xFFFF_FFFF) by (nonlinear_arith)
        requires
            sample_rate <= 0xFFFF_FFFF,
            duration_ms <= 0xFFFF_FFFF,
    ;
    sample_rate as u64 * duration_ms as u64 / 1000
}

/// Two bytes make a sample, the lower first, in two's complement; what is left over is
/// none.
pub proof fn samples_are_two_bytes(samples: Seq<i16>, bytes: Seq<u8>, i: int)
    ensures
        pcm_bytes(samples).len() == 2 * samples.len(),
        0 <= i < samples.len() ==> {
            let u = pcm_bytes(samples)[2 * i] + 256 * pcm_bytes(samples)[2 * i + 1];
            samples[i] == if u >= 32768 {
                u - 65536
            } else {
                u
            }
        },
        pcm_samples(bytes).len() == bytes.len() / 2,
        0 <= i < pcm_samples(bytes).len() ==> {
            let u = bytes[2 * i] + 256 * bytes[2 * i + 1];
            pcm_samples(bytes)[i] == if u >= 32768 {
                u - 65536
            } else {
                u
            }
        },
{
    if 0 <= i < samples.len() {
        assert((2 * i) / 2 == i && (2 * i + 1) / 2 == i && (2 * i) % 2 == 0 && (2 * i + 1) % 2
            == 1);
    }
}

} // verus!
