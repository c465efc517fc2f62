//! Room codes that people can read out.
//!
//! A code looks like `GRVT-2847`: four letters without the ambiguous I, O and Q,
//! a dash, four digits without 0 and 1.
use vstd::prelude::*;

use crate::text::{chars_of, string_of};

verus! {

/// The letters of a code.
pub const LETTERS: [char; 23] = [
    'A', 'B', 'C', 'D', 'E', 'F', 'G', 'H', 'J', 'K', 'L', 'M', 'N', 'P', 'R', 'S', 'T', 'U', 'V', 'W', 'X', 'Y', 'Z',
];

/// The digits of a code.
pub const DIGITS: [char; 8] = ['2', '3', '4', '5', '6', '7', '8', '9'];

/// One of the letters.
pub open spec fn is_letter(c: char) -> bool {
    'A' <= c <= 'Z' && c != 'I' && c != 'O' && c != 'Q'
}

/// One of the digits.
pub open spec fn is_code_digit(c: char) -> bool {
    '2' <= c <= '9'
}

/// Four letters, a dash, four digits.
pub open spec fn valid_code(s: Seq<char>) -> bool {
    &&& s.len() == 9
    &&& s[4] == '-'
    &&& forall|i: int| 0 <= i < 4 ==> is_letter(#[trigger] s[i])
    &&& forall|i: int| 5 <= i < 9 ==> is_code_digit(#[trigger] s[i])
}

/// The letters are the capital letters but I, O and Q.
proof fn letters_cover()
    ensures
        LETTERS@.len() == 23,
        forall|i: int| 0 <= i < 23 ==> is_letter(#[trigger] LETTERS@[i]),
        DIGITS@.len() == 8,
        forall|i: int| 0 <= i < 8 ==> is_code_digit(#[trigger] DIGITS@[i]),
{
}

/// The state that follows `s` in the generator of codes.
pub open spec fn step(s: u64) -> u64 {
    s.wrapping_mul(6364136223846793005).wrapping_add(1442695040888963407)
}

/// The state after `n` steps.
pub open spec fn steps(s: u64, n: nat) -> u64
    decreases n,
{
    if n == 0 {
        s
    } else {
        step(steps(s, (n - 1) as nat))
    }
}

/// The byte that step `n` yields: bits 33 to 40 of the state.
#[verifier::opaque]
pub open spec fn drawn(seed: u64, n: nat) -> int {
    (steps(seed, n) / 0x2_0000_0000) as int % 256
}

/// The code of a seed.
pub open spec fn code_of(seed: u64) -> Seq<char> {
    seq![
        LETTERS@[drawn(seed, 1) % 23],
        LETTERS@[drawn(seed, 2) % 23],
        LETTERS@[drawn(seed, 3) % 23],
        LETTERS@[drawn(seed, 4) % 23],
        '-',
        DIGITS@[drawn(seed, 5) % 8],
        DIGITS@[drawn(seed, 6) % 8],
        DIGITS@[drawn(seed, 7) % 8],
        DIGITS@[drawn(seed, 8) % 8],
    ]
}

/// Every code that is made is valid.
pub proof fn made_codes_are_valid(seed: u64)
    ensures
        valid_code(code_of(seed)),
{
    reveal(drawn);
    letters_cover();
}

/// The seed of a code, from the clock in ns and a counter.
pub open spec fn code_seed(now_ns: Option<u64>, count: u64) -> u64 {
    let t = match now_ns {
        Some(t) => t,
        None => 0,
    };
    t.wrapping_add(count.wrapping_mul(6364136223846793005))
}

/// Makes the next state of the generator and draws a byte from it.
fn draw(state: &mut u64) -> (r: u8)
    ensures
        *final(state) == step(*old(state)),
        r == (step(*old(state)) / 0x2_0000_0000) as int % 256,
{
    let s: u64 = state.wrapping_mul(6364136223846793005).wrapping_add(1442695040888963407);
    *state = s;
    assert((s >> 33) & 0xFF == (s / 0x2_0000_0000) % 256) by (bit_vector);
    assert((s >> 33) & 0xFF < 256) by (bit_vector);
    ((s >> 33) & 0xFF) as u8
}

/// Draws one of the letters.
fn draw_letter(state: &mut u64) -> (r: char)
    ensures
        *final(state) == step(*old(state)),
        r == LETTERS@[(step(*old(state)) / 0x2_0000_0000) as int % 256 % 23],
{
    let letters: [char; 23] = LETTERS;
    let b: u8 = draw(state);
    letters[(b % 23) as usize]
}

/// Draws one of the digits.
fn draw_digit(state: &mut u64) -> (r: char)
    ensures
        *final(state) == step(*old(state)),
        r == DIGITS@[(step(*old(state)) / 0x2_0000_0000) as int % 256 % 8],
{
    let digits: [char; 8] = DIGITS;
    let b: u8 = draw(state);
    digits[(b % 8) as usize]
}

/// Makes a code from the clock (`None` where it stands before 1970) and a
/// counter, which moves on by one.
pub fn generate_code(now_ns: Option<u64>, counter: &mut u64) -> (r: String)
    ensures
        *final(counter) == old(counter).wrapping_add(1),
        r@ == code_of(code_seed(now_ns, *old(counter))),
        valid_code(r@),
{
    let t: u64 = match now_ns {
        Some(t) => t,
        None => 0,
    };
    let c: u64 = *counter;
    *counter = c.wrapping_add(1);
    let seed: u64 = t.wrapping_add(c.wrapping_mul(6364136223846793005));
    let mut state: u64 = seed;
    proof {
        reveal_with_fuel(steps, 9);
        reveal(drawn);
        made_codes_are_valid(seed);
    }
    let l0: char = draw_letter(&mut state);
    let l1: char = draw_letter(&mut state);
    let l2: char = draw_letter(&mut state);
    let l3: char = draw_letter(&mut state);
    let d0: char = draw_digit(&mut state);
    let d1: char = draw_digit(&mut state);
    let d2: char = draw_digit(&mut state);
    let d3: char = draw_digit(&mut state);
    let code: [char; 9] = [l0, l1, l2, l3, '-', d0, d1, d2, d3];
    assert(code@ =~= code_of(seed));
    string_of(&code)
}

/// Whether a text is a valid code.
pub fn is_valid_code(code: &str) -> (r: bool)
    ensures
        r == valid_code(code@),
{
    let s: Vec<char> = chars_of(code);
    if s.len() != 9 || s[4] != '-' {
        return false;
    }
    let mut i: usize = 0;
    while i < 9
        invariant
            i <= 9,
            s@ == code@,
            s@.len() == 9,
            forall|j: int| 0 <= j < i && j < 4 ==> is_letter(#[trigger] s@[j]),
            forall|j: int| 5 <= j < i ==> is_code_digit(#[trigger] s@[j]),
        decreases 9 - i,
    {
        let c: char = s[i];
        if i < 4 && !('A' <= c && c <= 'Z' && c != 'I' && c != 'O' && c != 'Q') {
            return false;
        }
        if i > 4 && !('2' <= c && c <= '9') {
            return false;
        }
        i = i + 1;
    }
    true
}

/// The number that the clock and a counter hash to.
pub open spec fn id_hash(now_ns: Option<u64>, count: u64) -> u64 {
    let t = match now_ns {
        Some(t) => t,
        None => 1,
    };
    t.wrapping_add(count.wrapping_mul(2654435761))
}

/// The session id of a hash: the XOR of its halves, and a fixed number in place
/// of zero.
pub open spec fn id_of(h: u64) -> u32 {
    let id = ((h / 0x1_0000_0000) as u32) ^ ((h % 0x1_0000_0000) as u32);
    if id == 0 {
        0xDEAD_BEEF
    } else {
        id
    }
}

/// Makes a session id, never zero, from the clock and a counter, which moves on
/// by one.
pub fn generate_session_id(now_ns: Option<u64>, counter: &mut u64) -> (r: u32)
    ensures
        *final(counter) == old(counter).wrapping_add(1),
        r == id_of(id_hash(now_ns, *old(counter))),
        r != 0,
{
    let t: u64 = match now_ns {
        Some(t) => t,
        None => 1,
    };
    let c: u64 = *counter;
    *counter = c.wrapping_add(1);
    let h: u64 = t.wrapping_add(c.wrapping_mul(2654435761));
    let high: u32 = (h / 0x1_0000_0000) as u32;
    let low: u32 = (h % 0x1_0000_0000) as u32;
    let id: u32 = high ^ low;
    if id == 0 {
        0xDEAD_BEEF
    } else {
        id
    }
}

/// What a code looks like: four capital letters but I, O and Q, a dash, and four digits
/// but 0 and 1.
pub proof fn code_in_letters(s: Seq<char>)
    ensures
        valid_code(s) <==> s.len() == 9 && s[4] == '-' && (forall|i: int|
            0 <= i < 4 ==> 'A' <= #[trigger] s[i] <= 'Z' && s[i] != 'I' && s[i] != 'O' && s[i]
                != 'Q') && (forall|i: int| 5 <= i < 9 ==> '2' <= #[trigger] s[i] <= '9'),
{
}

/// A session id is made of both halves of the number it is drawn from, and is never
/// zero.
pub proof fn made_id_is_not_zero(h: u64)
    ensures
        id_of(h) != 0,
        ({
            let high = (h / 0x1_0000_0000) as u32;
            let low = (h % 0x1_0000_0000) as u32;
            &&& high != low ==> id_of(h) == high ^ low
            &&& high == low ==> id_of(h) == 3735928559
        }),
{
    let high = (h / 0x1_0000_0000) as u32;
    let low = (h % 0x1_0000_0000) as u32;
    assert(high ^ low == 0 <==> high == low) by (bit_vector);
}

/// What a sum with a product is, cut to 64 bits.
proof fn cut_sum(a: u64, b: u64, c: u64)
    ensures
        a.wrapping_mul(b).wrapping_add(c) == (a * b + c) % 0x1_0000_0000_0000_0000,
        c.wrapping_add(a.wrapping_mul(b)) == (c + a * b) % 0x1_0000_0000_0000_0000,
{
    let p = a * b;
    let r = a.wrapping_mul(b) as int;
    let q = p / 0x1_0000_0000_0000_0000;
    assert(p == q * 0x1_0000_0000_0000_0000 + r);
}

/// The generator of codes in numbers: each state is the one before times a constant plus
/// another, cut to 64 bits. It starts from the clock and the counter.
pub proof fn generator_in_numbers(seed: u64, s: u64, n: nat, now_ns: u64, count: u64)
    ensures
        step(s) == (s * 6364136223846793005 + 1442695040888963407) % 0x1_0000_0000_0000_0000,
        steps(seed, 0) == seed,
        steps(seed, n + 1) == step(steps(seed, n)),
        code_seed(None, count) == code_seed(Some(0), count),
        code_seed(Some(now_ns), count) == (now_ns + count * 6364136223846793005)
            % 0x1_0000_0000_0000_0000,
{
    cut_sum(s, 6364136223846793005, 1442695040888963407);
    cut_sum(count, 6364136223846793005, now_ns);
}

/// Bits 33 to 40 of the first four states pick the letters of a code, from A to Z but I,
/// O and Q, and those of the next four its digits, from 2 to 9.
pub proof fn states_pick_the_code(seed: u64, i: int)
    ensures
        code_of(seed).len() == 9 && code_of(seed)[4] == '-',
        0 <= i < 4 ==> code_of(seed)[i] == seq![
            'A', 'B', 'C', 'D', 'E', 'F', 'G', 'H', 'J', 'K', 'L', 'M', 'N', 'P', 'R', 'S', 'T',
            'U', 'V', 'W', 'X', 'Y', 'Z',
        ][picked(seed, i + 1) % 23],
        5 <= i < 9 ==> code_of(seed)[i] == seq!['2', '3', '4', '5', '6', '7', '8', '9'][picked(
            seed,
            i,
        ) % 8],
{
    assert(LETTERS@ =~= seq![
        'A', 'B', 'C', 'D', 'E', 'F', 'G', 'H', 'J', 'K', 'L', 'M', 'N', 'P', 'R', 'S', 'T',
        'U', 'V', 'W', 'X', 'Y', 'Z',
    ]);
    assert(DIGITS@ =~= seq!['2', '3', '4', '5', '6', '7', '8', '9']);
    assert forall|n: nat| #[trigger] drawn(seed, n) == picked(seed, n as int) by {
        reveal(drawn);
        reveal(picked);
    }
}

/// Bits 33 to 40 of the state after `n` steps.
#[verifier::opaque]
pub open spec fn picked(seed: u64, n: int) -> int {
    steps(seed, n as nat) as int / 0x2_0000_0000 % 256
}

/// A code and a session id are made from the clock and the counter, which moves on by
/// one, so that the next is another; an id is never zero.
pub proof fn codes_and_ids_move_on(
    now_ns: Option<u64>,
    counter: &mut u64,
    code: String,
    other: &mut u64,
    id: u32,
    text: &str,
    valid: bool,
)
    requires
        call_ensures(generate_code, (now_ns, counter), code),
        call_ensures(generate_session_id, (now_ns, other), id),
        call_ensures(is_valid_code, (text,), valid),
    ensures
        *final(counter) == old(counter).wrapping_add(1),
        *final(other) == old(other).wrapping_add(1),
        code@.len() == 9 && code@[4] == '-',
        forall|i: int| 0 <= i < 4 ==> 'A' <= #[trigger] code@[i] <= 'Z',
        forall|i: int| 5 <= i < 9 ==> '2' <= #[trigger] code@[i] <= '9',
        id != 0,
        valid <==> text@.len() == 9 && text@[4] == '-' && (forall|i: int|
            0 <= i < 4 ==> 'A' <= #[trigger] text@[i] <= 'Z' && text@[i] != 'I' && text@[i] != 'O'
                && text@[i] != 'Q') && (forall|i: int|
            5 <= i < 9 ==> '2' <= #[trigger] text@[i] <= '9'),
{
    code_in_letters(code@);
    code_in_letters(text@);
}

} // verus!
