//! Big-endian integers and byte copies inside buffers.
use vstd::prelude::*;

verus! {

/// The two bytes of `x`, most significant first.
pub open spec fn be16(x: u16) -> Seq<u8> {
    seq![(x / 0x100) as u8, (x % 0x100) as u8]
}

/// The four bytes of `x`, most significant first.
pub open spec fn be32(x: u32) -> Seq<u8> {
    seq![
        (x / 0x100_0000) as u8,
        (x / 0x1_0000 % 0x100) as u8,
        (x / 0x100 % 0x100) as u8,
        (x % 0x100) as u8,
    ]
}

/// The eight bytes of `x`, most significant first.
pub open spec fn be64(x: u64) -> Seq<u8> {
    be32((x / 0x1_0000_0000) as u32) + be32((x % 0x1_0000_0000) as u32)
}

/// The number that the two bytes of `s` from `i` on spell.
pub open spec fn be16_at(s: Seq<u8>, i: int) -> u16 {
    (s[i] * 0x100 + s[i + 1]) as u16
}

/// The number that the four bytes of `s` from `i` on spell.
pub open spec fn be32_at(s: Seq<u8>, i: int) -> u32 {
    (s[i] * 0x100_0000 + s[i + 1] * 0x1_0000 + s[i + 2] * 0x100 + s[i + 3]) as u32
}

/// The number that the eight bytes of `s` from `i` on spell.
pub open spec fn be64_at(s: Seq<u8>, i: int) -> u64 {
    (be32_at(s, i) * 0x1_0000_0000 + be32_at(s, i + 4)) as u64
}

/// `s` with `bytes` written over it from `at` on.
pub open spec fn overwrite(s: Seq<u8>, at: int, bytes: Seq<u8>) -> Seq<u8> {
    Seq::new(
        s.len(),
        |i: int|
            if at <= i < at + bytes.len() {
                bytes[i - at]
            } else {
                s[i]
            },
    )
}

/// Reading back the two bytes of a number gives the number.
pub broadcast proof fn be16_round_trip(s: Seq<u8>, i: int, x: u16)
    requires
        0 <= i,
        i + 2 <= s.len(),
        #[trigger] s.subrange(i, i + 2) == #[trigger] be16(x),
    ensures
        be16_at(s, i) == x,
{
    assert(s[i] == s.subrange(i, i + 2)[0]);
    assert(s[i + 1] == s.subrange(i, i + 2)[1]);
}

/// Reading back the four bytes of a number gives the number.
pub broadcast proof fn be32_round_trip(s: Seq<u8>, i: int, x: u32)
    requires
        0 <= i,
        i + 4 <= s.len(),
        #[trigger] s.subrange(i, i + 4) == #[trigger] be32(x),
    ensures
        be32_at(s, i) == x,
{
    assert(s[i] == s.subrange(i, i + 4)[0]);
    assert(s[i + 1] == s.subrange(i, i + 4)[1]);
    assert(s[i + 2] == s.subrange(i, i + 4)[2]);
    assert(s[i + 3] == s.subrange(i, i + 4)[3]);
}

/// Reading back the eight bytes of a number gives the number.
pub broadcast proof fn be64_round_trip(s: Seq<u8>, i: int, x: u64)
    requires
        0 <= i,
        i + 8 <= s.len(),
        #[trigger] s.subrange(i, i + 8) == #[trigger] be64(x),
    ensures
        be64_at(s, i) == x,
{
    assert(s.subrange(i, i + 4) =~= s.subrange(i, i + 8).subrange(0, 4));
    assert(s.subrange(i + 4, i + 8) =~= s.subrange(i, i + 8).subrange(4, 8));
    assert(be64(x).subrange(0, 4) =~= be32((x / 0x1_0000_0000) as u32));
    assert(be64(x).subrange(4, 8) =~= be32((x % 0x1_0000_0000) as u32));
    be32_round_trip(s, i, (x / 0x1_0000_0000) as u32);
    be32_round_trip(s, i + 4, (x % 0x1_0000_0000) as u32);
}

/// Reads two bytes.
pub fn read_u16(buf: &[u8], at: usize) -> (r: u16)
    requires
        at + 2 <= buf@.len(),
    ensures
        r == be16_at(buf@, at as int),
{
    buf[at] as u16 * 0x100 + buf[at + 1] as u16
}

/// Reads four bytes.
pub fn read_u32(buf: &[u8], at: usize) -> (r: u32)
    requires
        at + 4 <= buf@.len(),
    ensures
        r == be32_at(buf@, at as int),
{
    buf[at] as u32 * 0x100_0000 + buf[at + 1] as u32 * 0x1_0000 + buf[at + 2] as u32 * 0x100
        + buf[at + 3] as u32
}

/// Reads eight bytes.
pub fn read_u64(buf: &[u8], at: usize) -> (r: u64)
    requires
        at + 8 <= buf@.len(),
    ensures
        r == be64_at(buf@, at as int),
{
    assert(buf@.len() == buf.len());
    let high: u32 = read_u32(buf, at);
    let low: u32 = read_u32(buf, at + 4);
    high as u64 * 0x1_0000_0000 + low as u64
}

/// Copies `N` bytes out of `buf`.
pub fn read_array<const N: usize>(buf: &[u8], at: usize) -> (r: [u8; N])
    requires
        at + N <= buf@.len(),
    ensures
        r@ == buf@.subrange(at as int, at + N),
{
    assert(buf@.len() == buf.len());
    let mut r: [u8; N] = [0u8; N];
    let mut i: usize = 0;
    while i < N
        invariant
            i <= N,
            at + N <= buf@.len() <= usize::MAX,
            forall|j: int| 0 <= j < i ==> r@[j] == buf@[at + j],
        decreases N - i,
    {
        r[i] = buf[at + i];
        i = i + 1;
    }
    assert(r@ =~= buf@.subrange(at as int, at + N));
    r
}

/// Copies `src` over `buf` from `at` on.
pub fn write_bytes(buf: &mut [u8], at: usize, src: &[u8])
    requires
        at + src@.len() <= old(buf)@.len(),
    ensures
        final(buf)@ == overwrite(old(buf)@, at as int, src@),
{
    let ghost before = buf@;
    assert(buf@.len() == buf.len());
    let mut i: usize = 0;
    while i < src.len()
        invariant
            i <= src@.len(),
            at + src@.len() <= buf@.len() <= usize::MAX,
            buf@ == overwrite(before, at as int, src@.subrange(0, i as int)),
        decreases src@.len() - i,
    {
        buf[at + i] = src[i];
        i = i + 1;
    }
    assert(src@.subrange(0, i as int) =~= src@);
}

/// The two bytes of `x`.
pub fn u16_bytes(x: u16) -> (r: [u8; 2])
    ensures
        r@ == be16(x),
{
    let r: [u8; 2] = [(x / 0x100) as u8, (x % 0x100) as u8];
    assert(r@ =~= be16(x));
    r
}

/// The four bytes of `x`.
pub fn u32_bytes(x: u32) -> (r: [u8; 4])
    ensures
        r@ == be32(x),
{
    let r: [u8; 4] = [
        (x / 0x100_0000) as u8,
        (x / 0x1_0000 % 0x100) as u8,
        (x / 0x100 % 0x100) as u8,
        (x % 0x100) as u8,
    ];
    assert(r@ =~= be32(x));
    r
}

/// Writes the two bytes of `x` over `buf` from `at` on.
pub fn write_u16(buf: &mut [u8], at: usize, x: u16)
    requires
        at + 2 <= old(buf)@.len(),
    ensures
        final(buf)@ == overwrite(old(buf)@, at as int, be16(x)),
{
    let b: [u8; 2] = u16_bytes(x);
    write_bytes(buf, at, &b);
}

/// Writes the four bytes of `x` over `buf` from `at` on.
pub fn write_u32(buf: &mut [u8], at: usize, x: u32)
    requires
        at + 4 <= old(buf)@.len(),
    ensures
        final(buf)@ == overwrite(old(buf)@, at as int, be32(x)),
{
    let b: [u8; 4] = u32_bytes(x);
    write_bytes(buf, at, &b);
}

/// Writes the eight bytes of `x` over `buf` from `at` on.
pub fn write_u64(buf: &mut [u8], at: usize, x: u64)
    requires
        at + 8 <= old(buf)@.len(),
    ensures
        final(buf)@ == overwrite(old(buf)@, at as int, be64(x)),
{
    assert(buf@.len() == buf.len());
    write_u32(buf, at, (x / 0x1_0000_0000) as u32);
    write_u32(buf, at + 4, (x % 0x1_0000_0000) as u32);
}

/// A number of two bytes goes out most significant byte first.
pub proof fn be16_spells(x: u16)
    ensures
        be16(x).len() == 2,
        x == be16(x)[0] * 256 + be16(x)[1],
{
}

/// A number of four bytes goes out most significant byte first.
pub proof fn be32_spells(x: u32)
    ensures
        be32(x).len() == 4,
        x == be32(x)[0] * 0x100_0000 + be32(x)[1] * 0x1_0000 + be32(x)[2] * 0x100 + be32(x)[3],
{
    let a = (x / 0x100_0000) as int;
    let b = (x / 0x1_0000) as int;
    let c = (x / 0x100) as int;
    assert(b == a * 0x100 + b % 0x100);
    assert(c == b * 0x100 + c % 0x100);
    assert(x == c * 0x100 + x % 0x100);
}

/// A number of eight bytes goes out most significant byte first.
pub proof fn be64_spells(x: u64)
    ensures
        be64(x).len() == 8,
        x / 0x1_0000_0000 == be64(x)[0] * 0x100_0000 + be64(x)[1] * 0x1_0000 + be64(x)[2] * 0x100
            + be64(x)[3],
        x % 0x1_0000_0000 == be64(x)[4] * 0x100_0000 + be64(x)[5] * 0x1_0000 + be64(x)[6] * 0x100
            + be64(x)[7],
{
    let high = (x / 0x1_0000_0000) as u32;
    let low = (x % 0x1_0000_0000) as u32;
    be32_spells(high);
    be32_spells(low);
    assert forall|i: int| 0 <= i < 4 implies be64(x)[i] == be32(high)[i] && be64(x)[i + 4]
        == be32(low)[i] by {}
}

/// Bytes are read most significant first.
pub proof fn read_most_significant_first(s: Seq<u8>, i: int)
    requires
        0 <= i,
        i + 8 <= s.len(),
    ensures
        be16_at(s, i) == s[i] * 256 + s[i + 1],
        be32_at(s, i) == s[i] * 0x100_0000 + s[i + 1] * 0x1_0000 + s[i + 2] * 0x100 + s[i + 3],
        be64_at(s, i) / 0x1_0000_0000 == s[i] * 0x100_0000 + s[i + 1] * 0x1_0000 + s[i + 2] * 0x100
            + s[i + 3],
        be64_at(s, i) % 0x1_0000_0000 == s[i + 4] * 0x100_0000 + s[i + 5] * 0x1_0000 + s[i + 6]
            * 0x100 + s[i + 7],
{
}

/// Writing a number that was read gives the bytes back that it was read from.
pub proof fn be32_rewrites(s: Seq<u8>, i: int)
    requires
        0 <= i,
        i + 4 <= s.len(),
    ensures
        be32(be32_at(s, i)) == s.subrange(i, i + 4),
{
    let a = s[i] as int;
    let b = s[i + 1] as int;
    let c = s[i + 2] as int;
    let d = s[i + 3] as int;
    let x = be32_at(s, i);
    assert(x == a * 0x100_0000 + b * 0x1_0000 + c * 0x100 + d);
    assert(x / 0x100_0000 == a);
    assert(x / 0x1_0000 == a * 0x100 + b);
    assert(x / 0x100 == a * 0x1_0000 + b * 0x100 + c);
    assert(be32(x) =~= s.subrange(i, i + 4));
}

/// Writing bytes changes those places and no other.
pub proof fn overwrite_changes_its_places(s: Seq<u8>, at: int, bytes: Seq<u8>, i: int)
    requires
        0 <= i < s.len(),
    ensures
        overwrite(s, at, bytes).len() == s.len(),
        at <= i < at + bytes.len() ==> overwrite(s, at, bytes)[i] == bytes[i - at],
        i < at || i >= at + bytes.len() ==> overwrite(s, at, bytes)[i] == s[i],
{
}

} // verus!
