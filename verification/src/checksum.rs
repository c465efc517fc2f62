//! CRC-16/CCITT-FALSE: polynomial 0x1021, initial value 0xFFFF, no reflection.
use vstd::prelude::*;

verus! {

/// One step of the shift register.
pub open spec fn crc_shift(c: u16) -> u16 {
    if c & 0x8000 != 0 {
        (c << 1) ^ 0x1021
    } else {
        c << 1
    }
}

/// `n` steps of the shift register.
pub open spec fn crc_shifts(c: u16, n: nat) -> u16
    decreases n,
{
    if n == 0 {
        c
    } else {
        crc_shift(crc_shifts(c, (n - 1) as nat))
    }
}

/// The register after one more byte.
pub open spec fn crc_byte(c: u16, b: u8) -> u16 {
    crc_shifts(c ^ ((b as u16) << 8), 8)
}

/// The checksum of a byte string.
pub open spec fn crc16(s: Seq<u8>) -> u16
    decreases s.len(),
{
    if s.len() == 0 {
        0xFFFF
    } else {
        crc_byte(crc16(s.drop_last()), s.last())
    }
}

/// Computes the checksum of the first `len` bytes of `buf`.
pub fn crc16_ccitt_false(buf: &[u8], len: usize) -> (r: u16)
    requires
        len <= buf@.len(),
    ensures
        r == crc16(buf@.subrange(0, len as int)),
{
    let mut crc: u16 = 0xFFFF;
    let mut i: usize = 0;
    while i < len
        invariant
            i <= len <= buf@.len(),
            crc == crc16(buf@.subrange(0, i as int)),
        decreases len - i,
    {
        crc = crc ^ ((buf[i] as u16) << 8);
        let ghost mixed: u16 = crc;
        let mut bit: usize = 0;
        while bit < 8
            invariant
                bit <= 8,
                crc == crc_shifts(mixed, bit as nat),
            decreases 8 - bit,
        {
            crc = if crc & 0x8000 != 0 {
                (crc << 1) ^ 0x1021
            } else {
                crc << 1
            };
            bit = bit + 1;
        }
        assert(buf@.subrange(0, i + 1).drop_last() =~= buf@.subrange(0, i as int));
        i = i + 1;
    }
    crc
}

/// The checksum of nothing is 0xFFFF. One more byte goes into the upper half of the
/// register, which is then shifted eight times; a bit that falls out turns over the bits
/// of 0x1021.
pub proof fn checksum_of_one_more(s: Seq<u8>, b: u8, c: u16)
    ensures
        crc16(Seq::<u8>::empty()) == 0xFFFF,
        crc_shift(c) == if c >= 0x8000 {
            ((2 * c - 0x1_0000) as u16) ^ 0x1021
        } else {
            (2 * c) as u16
        },
        crc16(s.push(b)) == crc_shift(
            crc_shift(
                crc_shift(
                    crc_shift(
                        crc_shift(
                            crc_shift(
                                crc_shift(crc_shift(crc16(s) ^ ((b as u16) * 256) as u16)),
                            ),
                        ),
                    ),
                ),
            ),
        ),
{
    assert(s.push(b).drop_last() =~= s);
    assert(c & 0x8000 != 0 <==> c >= 0x8000) by (bit_vector);
    assert(c >= 0x8000 ==> c << 1 == (2 * c - 0x1_0000) as u16) by (bit_vector);
    assert(c < 0x8000 ==> c << 1 == (2 * c) as u16) by (bit_vector);
    assert((b as u16) << 8 == ((b as u16) * 256) as u16) by (bit_vector);
    reveal_with_fuel(crc_shifts, 9);
}

} // verus!
