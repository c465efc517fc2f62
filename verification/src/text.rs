//! Text: building strings, numbers in decimal, white space, UTF-8.
use vstd::prelude::*;
use vstd::utf8::{decode_utf8, valid_utf8};

verus! {

/// `String::push`: appends a character.
pub assume_specification [String::push] (s: &mut String, c: char)
    ensures
        final(s)@ == old(s)@.push(c),
;

/// `str::from_utf8`: the text that the bytes encode, if they are valid UTF-8.
#[verifier::external_body]
pub(crate) fn from_utf8(bytes: &[u8]) -> (r: Option<&str>)
    ensures
        match r {
            Some(s) => valid_utf8(bytes@) && s@ == decode_utf8(bytes@),
            None => !valid_utf8(bytes@),
        },
{
    std::str::from_utf8(bytes).ok()
}

/// The characters of a text.
pub fn chars_of(s: &str) -> (r: Vec<char>)
    ensures
        r@ == s@,
{
    let mut v: Vec<char> = Vec::new();
    for c in it: s.chars()
        invariant
            it.seq() == s@,
            v@ == it.seq().take(it.index()),
    {
        v.push(c);
    }
    v
}

/// The text made of some characters.
pub fn string_of(chars: &[char]) -> (r: String)
    ensures
        r@ == chars@,
{
    let mut s: String = String::new();
    let mut i: usize = 0;
    while i < chars.len()
        invariant
            i <= chars@.len(),
            s@ == chars@.take(i as int),
        decreases chars@.len() - i,
    {
        s.push(chars[i]);
        i = i + 1;
        assert(chars@.take(i as int) =~= chars@.take(i - 1).push(chars@[i - 1]));
    }
    assert(chars@.take(i as int) =~= chars@);
    s
}

/// The character of a decimal digit.
pub open spec fn digit_char(d: int) -> char {
    (48 + d) as char
}

/// A natural number in decimal, without leading zeros.
pub open spec fn decimal(n: nat) -> Seq<char>
    decreases n,
{
    if n < 10 {
        seq![digit_char(n as int)]
    } else {
        decimal(n / 10).push(digit_char((n % 10) as int))
    }
}

/// Appends a number in decimal.
pub fn push_decimal(s: &mut String, n: u64)
    ensures
        final(s)@ == old(s)@ + decimal(n as nat),
    decreases n,
{
    if n >= 10 {
        push_decimal(s, n / 10);
    }
    s.push((48 + (n % 10) as u8) as char);
    assert(s@ =~= old(s)@ + decimal(n as nat));
}

/// A decimal digit.
pub open spec fn is_digit(c: char) -> bool {
    '0' <= c <= '9'
}

/// Every character is a decimal digit.
pub open spec fn all_digits(s: Seq<char>) -> bool {
    forall|i: int| 0 <= i < s.len() ==> is_digit(#[trigger] s[i])
}

/// The number that a string of digits spells.
pub open spec fn digits_value(s: Seq<char>) -> nat
    decreases s.len(),
{
    if s.len() == 0 {
        0
    } else {
        (digits_value(s.drop_last()) * 10 + (s.last() as int - 48)) as nat
    }
}

/// The digits of a text after an optional plus sign.
pub open spec fn unsigned_body(s: Seq<char>) -> Seq<char> {
    if s.len() > 0 && s[0] == '+' {
        s.drop_first()
    } else {
        s
    }
}

/// The number that a text spells: digits, at least one, after an optional plus
/// sign, and not above `max`.
pub open spec fn unsigned_of(s: Seq<char>, max: nat) -> Option<nat> {
    let body = unsigned_body(s);
    if body.len() > 0 && all_digits(body) && digits_value(body) <= max {
        Some(digits_value(body))
    } else {
        None
    }
}

/// A longer string of digits spells no smaller number.
proof fn digits_value_grows(s: Seq<char>, k: int)
    requires
        0 <= k <= s.len(),
        all_digits(s),
    ensures
        digits_value(s.take(k)) <= digits_value(s),
    decreases s.len(),
{
    if k == s.len() {
        assert(s.take(k) =~= s);
    } else {
        assert(s.drop_last().take(k) =~= s.take(k));
        assert(all_digits(s.drop_last()));
        digits_value_grows(s.drop_last(), k);
        assert(is_digit(s[s.len() - 1]));
    }
}

/// Reading back a number written in decimal gives the number.
pub proof fn decimal_round_trip(n: nat)
    ensures
        decimal(n).len() > 0,
        all_digits(decimal(n)),
        digits_value(decimal(n)) == n,
        forall|max: nat| n <= max ==> unsigned_of(decimal(n), max) == Some(n),
    decreases n,
{
    if n < 10 {
        assert(decimal(n).drop_last() =~= Seq::empty());
        assert(digits_value(Seq::<char>::empty()) == 0);
    } else {
        decimal_round_trip(n / 10);
        assert(decimal(n).drop_last() =~= decimal(n / 10));
        assert forall|i: int| 0 <= i < decimal(n).len() implies is_digit(
            #[trigger] decimal(n)[i],
        ) by {
            if i < decimal(n).len() - 1 {
                assert(decimal(n)[i] == decimal(n / 10)[i]);
            }
        }
    }
    assert(is_digit(decimal(n)[0]));
}

/// Reads the digits of `chars[from..to]`.
pub fn parse_digits(chars: &[char], from: usize, to: usize, max: u64) -> (r: Option<u64>)
    requires
        from <= to <= chars@.len(),
    ensures
        ({
            let body = chars@.subrange(from as int, to as int);
            r == if body.len() > 0 && all_digits(body) && digits_value(body) <= max {
                Some(digits_value(body) as u64)
            } else {
                None::<u64>
            }
        }),
{
    let ghost body = chars@.subrange(from as int, to as int);
    if from == to {
        return None;
    }
    let mut value: u64 = 0;
    let mut i: usize = from;
    assert(body.take(0) =~= Seq::empty());
    while i < to
        invariant
            from <= i <= to <= chars@.len(),
            body == chars@.subrange(from as int, to as int),
            all_digits(body.take(i - from)),
            value == digits_value(body.take(i - from)),
            value <= max,
        decreases to - i,
    {
        let c: char = chars[i];
        let ghost k = i - from;
        proof {
            assert(body[k] == c);
            assert(body.take(k + 1).drop_last() =~= body.take(k));
            assert(body.take(k + 1).last() == c);
            if all_digits(body) {
                assert(is_digit(body[k]));
                digits_value_grows(body, k + 1);
            }
        }
        if !('0' <= c && c <= '9') {
            return None;
        }
        let d: u64 = (c as u32 - 48) as u64;
        match value.checked_mul(10) {
            Some(v) => match v.checked_add(d) {
                Some(w) => {
                    if w > max {
                        return None;
                    }
                    value = w;
                },
                None => return None,
            },
            None => return None,
        }
        i = i + 1;
        assert(all_digits(body.take(k + 1))) by {
            assert forall|j: int| 0 <= j < k + 1 implies is_digit(
                #[trigger] body.take(k + 1)[j],
            ) by {
                if j < k {
                    assert(body.take(k)[j] == body.take(k + 1)[j]);
                }
            }
        }
    }
    assert(body.take(i - from) =~= body);
    Some(value)
}

/// Reads an unsigned number the way `str::parse` does.
pub fn parse_unsigned(chars: &[char], from: usize, to: usize, max: u64) -> (r: Option<u64>)
    requires
        from <= to <= chars@.len(),
    ensures
        match unsigned_of(chars@.subrange(from as int, to as int), max as nat) {
            Some(n) => r == Some(n as u64),
            None => r == None::<u64>,
        },
{
    let ghost s = chars@.subrange(from as int, to as int);
    if from < to && chars[from] == '+' {
        assert(chars@.subrange(from + 1, to as int) =~= s.drop_first());
        parse_digits(chars, from + 1, to, max)
    } else {
        parse_digits(chars, from, to, max)
    }
}

/// The characters with the Unicode property `White_Space`.
pub open spec fn is_white_space(c: char) -> bool {
    let u = c as u32;
    ||| 0x09 <= u <= 0x0D
    ||| u == 0x20
    ||| u == 0x85
    ||| u == 0xA0
    ||| u == 0x1680
    ||| 0x2000 <= u <= 0x200A
    ||| u == 0x2028
    ||| u == 0x2029
    ||| u == 0x202F
    ||| u == 0x205F
    ||| u == 0x3000
}

/// Whether a character is white space.
pub fn white_space(c: char) -> (r: bool)
    ensures
        r == is_white_space(c),
{
    let u: u32 = c as u32;
    (0x09 <= u && u <= 0x0D) || u == 0x20 || u == 0x85 || u == 0xA0 || u == 0x1680 || (0x2000 <= u
        && u <= 0x200A) || u == 0x2028 || u == 0x2029 || u == 0x202F || u == 0x205F || u == 0x3000
}

/// A text without the white space in front.
pub open spec fn trim_front(s: Seq<char>) -> Seq<char>
    decreases s.len(),
{
    if s.len() > 0 && is_white_space(s[0]) {
        trim_front(s.drop_first())
    } else {
        s
    }
}

/// A text without the white space behind.
pub open spec fn trim_back(s: Seq<char>) -> Seq<char>
    decreases s.len(),
{
    if s.len() > 0 && is_white_space(s.last()) {
        trim_back(s.drop_last())
    } else {
        s
    }
}

/// A text without the white space around it.
pub open spec fn trimmed(s: Seq<char>) -> Seq<char> {
    trim_back(trim_front(s))
}

/// First place in `chars[from..to]` that holds no white space, else `to`.
pub fn skip_front(chars: &[char], from: usize, to: usize) -> (r: usize)
    requires
        from <= to <= chars@.len(),
    ensures
        from <= r <= to,
        chars@.subrange(r as int, to as int) == trim_front(chars@.subrange(from as int, to as int)),
{
    let mut i: usize = from;
    while i < to && white_space(chars[i])
        invariant
            from <= i <= to <= chars@.len(),
            trim_front(chars@.subrange(i as int, to as int)) == trim_front(
                chars@.subrange(from as int, to as int),
            ),
        decreases to - i,
    {
        assert(chars@.subrange(i as int, to as int).drop_first() =~= chars@.subrange(
            i + 1,
            to as int,
        ));
        i = i + 1;
    }
    i
}

/// End of `chars[from..to]` without the white space behind.
pub fn skip_back(chars: &[char], from: usize, to: usize) -> (r: usize)
    requires
        from <= to <= chars@.len(),
    ensures
        from <= r <= to,
        chars@.subrange(from as int, r as int) == trim_back(chars@.subrange(from as int, to as int)),
{
    let mut j: usize = to;
    while j > from && white_space(chars[j - 1])
        invariant
            from <= j <= to <= chars@.len(),
            trim_back(chars@.subrange(from as int, j as int)) == trim_back(
                chars@.subrange(from as int, to as int),
            ),
        decreases j - from,
    {
        assert(chars@.subrange(from as int, j as int).drop_last() =~= chars@.subrange(
            from as int,
            j - 1,
        ));
        j = j - 1;
    }
    j
}

/// `pat` stands in `s` at `i`.
pub open spec fn found_at(s: Seq<char>, pat: Seq<char>, i: int) -> bool {
    0 <= i && i + pat.len() <= s.len() && s.subrange(i, i + pat.len()) == pat
}

/// The first place from `from` on where `pat` stands in `s`.
pub open spec fn first_found(s: Seq<char>, pat: Seq<char>, from: int) -> Option<int>
    decreases s.len() - from + 1,
{
    if from + pat.len() > s.len() {
        None
    } else if found_at(s, pat, from) {
        Some(from)
    } else {
        first_found(s, pat, from + 1)
    }
}

/// Where `pat` is found first it stands, and it stands nowhere before.
pub proof fn first_found_is_first(s: Seq<char>, pat: Seq<char>, from: int)
    requires
        0 <= from,
    ensures
        match first_found(s, pat, from) {
            Some(i) => from <= i && found_at(s, pat, i) && forall|j: int|
                from <= j < i ==> !found_at(s, pat, j),
            None => forall|j: int| from <= j ==> !found_at(s, pat, j),
        },
    decreases s.len() - from + 1,
{
    if from + pat.len() <= s.len() && !found_at(s, pat, from) {
        first_found_is_first(s, pat, from + 1);
    }
}

/// Whether `pat` stands in `chars` at `i`.
pub fn stands_at(chars: &[char], pat: &[char], i: usize) -> (r: bool)
    ensures
        r == found_at(chars@, pat@, i as int),
{
    if pat.len() > chars.len() || i > chars.len() - pat.len() {
        return false;
    }
    let mut k: usize = 0;
    while k < pat.len()
        invariant
            k <= pat@.len(),
            i + pat@.len() <= chars@.len() <= usize::MAX,
            forall|j: int| 0 <= j < k ==> chars@[i + j] == pat@[j],
        decreases pat@.len() - k,
    {
        if chars[i + k] != pat[k] {
            assert(chars@.subrange(i as int, i + pat@.len())[k as int] == chars@[i + k]);
            return false;
        }
        k = k + 1;
    }
    assert(chars@.subrange(i as int, i + pat@.len()) =~= pat@);
    true
}

/// Finds the first place from `from` on where `pat` stands in `chars`.
pub fn find_text(chars: &[char], pat: &[char], from: usize) -> (r: Option<usize>)
    requires
        from <= chars@.len(),
    ensures
        match first_found(chars@, pat@, from as int) {
            Some(i) => r matches Some(k) && k == i && from <= i && i + pat@.len() <= chars@.len(),
            None => r == None::<usize>,
        },
{
    let mut i: usize = from;
    while i <= chars.len() && pat.len() <= chars.len() - i
        invariant
            from <= i <= chars@.len() + 1,
            i <= usize::MAX,
            first_found(chars@, pat@, from as int) == first_found(chars@, pat@, i as int),
        decreases chars@.len() + 1 - i,
    {
        if stands_at(chars, pat, i) {
            return Some(i);
        }
        if i == chars.len() {
            assert(chars@.subrange(i as int, i + pat@.len()) =~= pat@);
            return None;
        }
        i = i + 1;
    }
    None
}

/// Whether `chars` are exactly the text `text`.
pub fn same_text(chars: &[char], text: &str) -> (r: bool)
    ensures
        r == (chars@ == text@),
{
    let t: Vec<char> = chars_of(text);
    if t.len() != chars.len() {
        return false;
    }
    let r: bool = stands_at(chars, &t, 0);
    assert(chars@.subrange(0, chars@.len() as int) =~= chars@);
    r
}

/// Trimming the front of two texts in a row.
pub proof fn trim_front_append(a: Seq<char>, b: Seq<char>)
    ensures
        trim_front(a + b) == if trim_front(a).len() > 0 {
            trim_front(a) + b
        } else {
            trim_front(b)
        },
    decreases a.len(),
{
    if a.len() == 0 {
        assert(a + b =~= b);
    } else if is_white_space(a[0]) {
        assert((a + b).drop_first() =~= a.drop_first() + b);
        trim_front_append(a.drop_first(), b);
    }
}

/// Trimming the back of two texts in a row.
pub proof fn trim_back_append(a: Seq<char>, b: Seq<char>)
    ensures
        trim_back(a + b) == if trim_back(b).len() > 0 {
            a + trim_back(b)
        } else {
            trim_back(a)
        },
    decreases b.len(),
{
    if b.len() == 0 {
        assert(a + b =~= a);
    } else if is_white_space(b.last()) {
        assert((a + b).drop_last() =~= a + b.drop_last());
        trim_back_append(a, b.drop_last());
    }
}

/// Front and back can be trimmed in either order.
pub proof fn trim_order(s: Seq<char>)
    ensures
        trim_front(trim_back(s)) == trim_back(trim_front(s)),
    decreases s.len(),
{
    if s.len() > 0 {
        let t = s.drop_last();
        let c = seq![s.last()];
        assert(s =~= t + c);
        trim_front_append(t, c);
        assert(c.drop_first() =~= Seq::empty());
        assert(trim_front(Seq::<char>::empty()) =~= Seq::empty());
        if is_white_space(s.last()) {
            trim_order(t);
            trim_back_append(trim_front(t), c);
            assert(c.drop_last() =~= Seq::empty());
            assert(trim_back(Seq::<char>::empty()) =~= Seq::empty());
            assert(trim_back(c) =~= Seq::empty());
        }
    }
}

/// Trimming the back twice is trimming it once.
pub proof fn trim_back_twice(s: Seq<char>)
    ensures
        trim_back(trim_back(s)) == trim_back(s),
    decreases s.len(),
{
    if s.len() > 0 && is_white_space(s.last()) {
        trim_back_twice(s.drop_last());
    }
}

/// The first place is where the text stands if it stands nowhere before.
pub proof fn first_found_at(s: Seq<char>, pat: Seq<char>, from: int, k: int)
    requires
        0 <= from <= k,
        found_at(s, pat, k),
        forall|j: int| from <= j < k ==> !found_at(s, pat, j),
    ensures
        first_found(s, pat, from) == Some(k),
{
    first_found_is_first(s, pat, from);
}

/// A number is written with its highest digit first, the last being what is left over by
/// ten, and without zeros in front.
pub proof fn decimal_in_digits(n: nat)
    ensures
        n < 10 ==> decimal(n).len() == 1,
        n >= 10 ==> decimal(n).drop_last() == decimal(n / 10),
        decimal(n).len() > 0 && decimal(n).last() as int == 48 + n % 10,
        n > 0 ==> decimal(n)[0] != '0',
    decreases n,
{
    if n >= 10 {
        decimal_in_digits(n / 10);
        assert(decimal(n).drop_last() =~= decimal(n / 10));
        assert(decimal(n)[0] == decimal(n / 10)[0]);
    }
}

/// A digit more makes ten times the number and the digit.
pub proof fn digit_more(s: Seq<char>, c: char)
    requires
        '0' <= c <= '9',
    ensures
        digits_value(Seq::<char>::empty()) == 0,
        digits_value(s.push(c)) == digits_value(s) * 10 + (c as int - 48),
{
    assert(s.push(c).drop_last() =~= s);
}

/// Digits are read as their number where it is not above the limit, with or without a
/// plus in front; what holds anything else, or nothing, is not read.
pub proof fn only_digits_are_read(body: Seq<char>, max: nat, k: int)
    ensures
        body.len() > 0 && (forall|i: int| 0 <= i < body.len() ==> '0' <= #[trigger] body[i] <= '9')
            && digits_value(body) <= max ==> unsigned_of(body, max) == Some(digits_value(body))
            && unsigned_of(seq!['+'] + body, max) == Some(digits_value(body)),
        (forall|i: int| 0 <= i < body.len() ==> '0' <= #[trigger] body[i] <= '9') && digits_value(
            body,
        ) > max ==> unsigned_of(body, max) is None,
        0 <= k < body.len() && !('0' <= body[k] <= '9') && (k > 0 || body[0] != '+')
            ==> unsigned_of(body, max) is None,
        body.len() == 0 ==> unsigned_of(body, max) is None,
{
    let signed = seq!['+'] + body;
    assert(signed.drop_first() =~= body);
    if forall|i: int| 0 <= i < body.len() ==> '0' <= #[trigger] body[i] <= '9' {
        assert(all_digits(body));
    }
    if 0 <= k < body.len() && !('0' <= body[k] <= '9') && (k > 0 || body[0] != '+') {
        let read = unsigned_body(body);
        if body[0] == '+' {
            assert(!is_digit(read[k - 1]));
        } else {
            assert(!is_digit(read[k]));
        }
    }
}

/// Trimming takes away white space at the ends and nothing else: what is left begins and
/// ends with something else, and stands in the text with white space alone around it.
pub proof fn trimming_leaves_the_middle(s: Seq<char>) -> (at: (int, int))
    ensures
        0 <= at.0 <= at.1 <= s.len(),
        trimmed(s) == s.subrange(at.0, at.1),
        forall|i: int| 0 <= i < at.0 || at.1 <= i < s.len() ==> is_white_space(#[trigger] s[i]),
        trimmed(s).len() > 0 ==> !is_white_space(trimmed(s)[0]) && !is_white_space(
            trimmed(s).last(),
        ),
{
    let a = front_is_white(s);
    let t = trim_front(s);
    let b = back_is_white(t);
    assert(trimmed(s) =~= s.subrange(a, a + b));
    assert forall|i: int| 0 <= i < a || a + b <= i < s.len() implies is_white_space(
        #[trigger] s[i],
    ) by {
        if i >= a + b {
            assert(t[i - a] == s[i]);
        }
    }
    if trimmed(s).len() > 0 {
        assert(trimmed(s)[0] == t[0]);
    }
    (a, a + b)
}

/// What trimming takes off the front.
proof fn front_is_white(s: Seq<char>) -> (a: int)
    ensures
        0 <= a <= s.len(),
        trim_front(s) == s.subrange(a, s.len() as int),
        forall|i: int| 0 <= i < a ==> is_white_space(#[trigger] s[i]),
        a < s.len() ==> !is_white_space(s[a]),
    decreases s.len(),
{
    if s.len() > 0 && is_white_space(s[0]) {
        let t = s.drop_first();
        let a = front_is_white(t);
        assert(s.subrange(a + 1, s.len() as int) =~= t.subrange(a, t.len() as int));
        assert forall|i: int| 0 <= i < a + 1 implies is_white_space(#[trigger] s[i]) by {
            if i > 0 {
                assert(t[i - 1] == s[i]);
            }
        }
        if a < t.len() {
            assert(t[a] == s[a + 1]);
        }
        a + 1
    } else {
        assert(s.subrange(0, s.len() as int) =~= s);
        0
    }
}

/// What trimming leaves at the back.
proof fn back_is_white(s: Seq<char>) -> (b: int)
    ensures
        0 <= b <= s.len(),
        trim_back(s) == s.subrange(0, b),
        forall|i: int| b <= i < s.len() ==> is_white_space(#[trigger] s[i]),
        b > 0 ==> !is_white_space(s[b - 1]),
    decreases s.len(),
{
    if s.len() > 0 && is_white_space(s.last()) {
        let t = s.drop_last();
        let b = back_is_white(t);
        assert(s.subrange(0, b) =~= t.subrange(0, b));
        assert forall|i: int| b <= i < s.len() implies is_white_space(#[trigger] s[i]) by {
            if i < t.len() {
                assert(t[i] == s[i]);
            }
        }
        b
    } else {
        assert(s.subrange(0, s.len() as int) =~= s);
        s.len() as int
    }
}

/// What counts as white space: of the ASCII characters the space and the five from tab
/// to carriage return.
pub proof fn ascii_white_space(c: char)
    requires
        (c as u32) < 128,
    ensures
        is_white_space(c) <==> c == ' ' || '\t' <= c <= '\r',
{
}

/// A pattern stands at a place where all its characters stand from there on.
pub proof fn pattern_stands(s: Seq<char>, pat: Seq<char>, i: int)
    ensures
        found_at(s, pat, i) <==> 0 <= i && i + pat.len() <= s.len() && forall|k: int|
            0 <= k < pat.len() ==> s[i + k] == #[trigger] pat[k],
{
    if 0 <= i && i + pat.len() <= s.len() {
        let t = s.subrange(i, i + pat.len());
        if forall|k: int| 0 <= k < pat.len() ==> s[i + k] == #[trigger] pat[k] {
            assert(t =~= pat);
        }
        if t == pat {
            assert forall|k: int| 0 <= k < pat.len() implies s[i + k] == #[trigger] pat[k] by {
                assert(t[k] == s[i + k]);
            }
        }
    }
}

/// All white space by its number.
pub proof fn white_space_in_numbers(c: char, r: bool)
    requires
        call_ensures(white_space, (c,), r),
    ensures
        ({
            let u = c as int;
            r <==> 9 <= u <= 13 || u == 32 || u == 133 || u == 160 || u == 5760 || 8192 <= u <= 8202
                || u == 8232 || u == 8233 || u == 8239 || u == 8287 || u == 12288
        }),
{
}

/// A text of spaces trims to nothing.
pub proof fn spaces_trim_to_nothing(s: Seq<char>)
    requires
        forall|i: int| 0 <= i < s.len() ==> #[trigger] s[i] == ' ',
    ensures
        trim_front(s).len() == 0,
        trimmed(s).len() == 0,
    decreases s.len(),
{
    if s.len() > 0 {
        assert(s[0] == ' ');
        assert forall|i: int| 0 <= i < s.drop_first().len() implies #[trigger] s.drop_first()[i]
            == ' ' by {
            assert(s.drop_first()[i] == s[i + 1]);
        }
        spaces_trim_to_nothing(s.drop_first());
    }
}

} // verus!
