//! Character-level helpers shared by the parsers: decimal numbers in both
//! directions, the whitespace class and searches in character sequences.

use vstd::prelude::*;

verus! {

/// Why a decimal integer could not be read.
#[derive(Clone, Copy, Debug, PartialEq, Eq, Structural)]
pub enum IntErrorKind {
    /// The text was empty.
    Empty,
    /// A character other than an ASCII digit was found (or a lone sign).
    InvalidDigit,
    /// The value does not fit in the target type.
    PosOverflow,
}

/// The text that describes an integer parse failure.
pub open spec fn int_error_message(kind: IntErrorKind) -> Seq<char> {
    match kind {
        IntErrorKind::Empty => "cannot parse integer from empty string"@,
        IntErrorKind::InvalidDigit => "invalid digit found in string"@,
        IntErrorKind::PosOverflow => "number too large to fit in target type"@,
    }
}

impl IntErrorKind {
    /// The text that describes this failure.
    pub fn message(self) -> (s: String)
        ensures
            s@ == int_error_message(self),
    {
        match self {
            IntErrorKind::Empty => String::from_str("cannot parse integer from empty string"),
            IntErrorKind::InvalidDigit => String::from_str("invalid digit found in string"),
            IntErrorKind::PosOverflow => String::from_str("number too large to fit in target type"),
        }
    }
}

pub open spec fn is_ascii_digit(c: char) -> bool {
    '0' <= c && c <= '9'
}

pub open spec fn digit_value(c: char) -> int {
    (c as int) - ('0' as int)
}

/// The ASCII digit for `d` (0 to 9).
pub open spec fn digit_char(d: int) -> char {
    ((d + 48) as u8) as char
}

/// Decimal digits of `n`, most significant first, with no leading zeros.
pub open spec fn decimal_digits(n: nat) -> Seq<char>
    decreases n,
{
    if n < 10 {
        seq![digit_char(n as int)]
    } else {
        decimal_digits(n / 10).push(digit_char((n % 10) as int))
    }
}

/// Decimal text of `n` as `Display` writes it for Rust integers.
pub open spec fn decimal_text(n: int) -> Seq<char> {
    if n < 0 {
        seq!['-'] + decimal_digits((-n) as nat)
    } else {
        decimal_digits(n as nat)
    }
}

/// Reads decimal digits of `s` from index `i` on, starting from the value `acc`,
/// the way the standard library reads an unsigned 16-bit integer: it stops at the
/// first character that is not a digit, or the first digit that makes the value
/// exceed `u16::MAX`.
pub open spec fn scan_decimal_u16(s: Seq<char>, i: int, acc: int) -> Result<int, IntErrorKind>
    decreases s.len() - i,
{
    if i >= s.len() {
        Ok(acc)
    } else if !is_ascii_digit(s[i]) {
        Err(IntErrorKind::InvalidDigit)
    } else if acc * 10 + digit_value(s[i]) > 65535 {
        Err(IntErrorKind::PosOverflow)
    } else {
        scan_decimal_u16(s, i + 1, acc * 10 + digit_value(s[i]))
    }
}

/// The result of reading `s` as a `u16`: an optional `+` followed by ASCII digits.
pub open spec fn parse_u16_spec(s: Seq<char>) -> Result<u16, IntErrorKind> {
    if s.len() == 0 {
        Err(IntErrorKind::Empty)
    } else if s.len() == 1 && (s[0] == '+' || s[0] == '-') {
        Err(IntErrorKind::InvalidDigit)
    } else {
        let start: int = if s[0] == '+' { 1 } else { 0 };
        match scan_decimal_u16(s, start, 0) {
            Ok(v) => Ok(v as u16),
            Err(k) => Err(k),
        }
    }
}

/// The whitespace class of `char::is_whitespace` (the Unicode `White_Space` property).
pub open spec fn is_whitespace(c: char) -> bool {
    ||| ('\u{9}' <= c && c <= '\u{d}')
    ||| c == ' '
    ||| c == '\u{85}'
    ||| c == '\u{a0}'
    ||| c == '\u{1680}'
    ||| ('\u{2000}' <= c && c <= '\u{200a}')
    ||| c == '\u{2028}'
    ||| c == '\u{2029}'
    ||| c == '\u{202f}'
    ||| c == '\u{205f}'
    ||| c == '\u{3000}'
}

/// First index at or after `i` that holds `c`, or `s.len()` when there is none.
pub open spec fn find_char_from(s: Seq<char>, c: char, i: int) -> int
    decreases s.len() - i,
{
    if i >= s.len() {
        s.len() as int
    } else if s[i] == c {
        i
    } else {
        find_char_from(s, c, i + 1)
    }
}

/// Last index below `i` that holds `c`, if any.
pub open spec fn rfind_char_before(s: Seq<char>, c: char, i: int) -> Option<int>
    decreases i,
{
    if i <= 0 {
        None
    } else if s[i - 1] == c {
        Some(i - 1)
    } else {
        rfind_char_before(s, c, i - 1)
    }
}

/// First index at or after `i` that does not hold whitespace, or `s.len()`.
pub open spec fn skip_whitespace_from(s: Seq<char>, i: int) -> int
    decreases s.len() - i,
{
    if i >= s.len() {
        s.len() as int
    } else if !is_whitespace(s[i]) {
        i
    } else {
        skip_whitespace_from(s, i + 1)
    }
}

/// First index at or after `i` that holds whitespace, or `s.len()`.
pub open spec fn token_end_from(s: Seq<char>, i: int) -> int
    decreases s.len() - i,
{
    if i >= s.len() {
        s.len() as int
    } else if is_whitespace(s[i]) {
        i
    } else {
        token_end_from(s, i + 1)
    }
}

pub proof fn lemma_find_char_from_bounds(s: Seq<char>, c: char, i: int)
    requires
        0 <= i <= s.len(),
    ensures
        i <= find_char_from(s, c, i) <= s.len(),
        find_char_from(s, c, i) < s.len() ==> s[find_char_from(s, c, i)] == c,
        forall|j: int| i <= j < find_char_from(s, c, i) ==> s[j] != c,
    decreases s.len() - i,
{
    if i < s.len() && s[i] != c {
        lemma_find_char_from_bounds(s, c, i + 1);
    }
}

pub proof fn lemma_digit_char(d: int)
    requires
        0 <= d < 10,
    ensures
        is_ascii_digit(digit_char(d)),
        digit_value(digit_char(d)) == d,
        !is_whitespace(digit_char(d)),
{
    assert(((d + 48) as u8) as char as int == d + 48);
}

pub proof fn lemma_decimal_digits_are_digits(n: nat)
    ensures
        decimal_digits(n).len() >= 1,
        forall|i: int|
            0 <= i < decimal_digits(n).len() ==> is_ascii_digit(#[trigger] decimal_digits(n)[i])
                && !is_whitespace(decimal_digits(n)[i]),
    decreases n,
{
    lemma_digit_char((n % 10) as int);
    if n >= 10 {
        lemma_decimal_digits_are_digits(n / 10);
    }
}

proof fn lemma_scan_push(s: Seq<char>, i: int, acc: int, v: int, c: char)
    requires
        0 <= i <= s.len(),
        0 <= acc,
        scan_decimal_u16(s, i, acc) == Ok::<int, IntErrorKind>(v),
        is_ascii_digit(c),
        v * 10 + digit_value(c) <= 65535,
    ensures
        scan_decimal_u16(s.push(c), i, acc) == Ok::<int, IntErrorKind>(v * 10 + digit_value(c)),
    decreases s.len() - i,
{
    let t = s.push(c);
    if i == s.len() {
        assert(t[i] == c);
        assert(v == acc);
        assert(scan_decimal_u16(t, i + 1, acc * 10 + digit_value(c)) == Ok::<int, IntErrorKind>(
            acc * 10 + digit_value(c),
        ));
    } else {
        assert(t[i] == s[i]);
        lemma_scan_push(s, i + 1, acc * 10 + digit_value(s[i]), v, c);
    }
}

proof fn lemma_scan_decimal_digits(n: nat)
    requires
        n <= 65535,
    ensures
        scan_decimal_u16(decimal_digits(n), 0, 0) == Ok::<int, IntErrorKind>(n as int),
    decreases n,
{
    let d = (n % 10) as int;
    lemma_digit_char(d);
    if n < 10 {
        let t = decimal_digits(n);
        assert(t == seq![digit_char(n as int)]);
        assert(scan_decimal_u16(t, 1, n as int) == Ok::<int, IntErrorKind>(n as int));
    } else {
        lemma_scan_decimal_digits(n / 10);
        lemma_scan_push(decimal_digits(n / 10), 0, 0, (n / 10) as int, digit_char(d));
    }
}

/// The number that a string of decimal digits denotes, read most significant
/// digit first.
pub open spec fn digits_value(s: Seq<char>) -> int
    decreases s.len(),
{
    if s.len() == 0 {
        0
    } else {
        digits_value(s.drop_last()) * 10 + digit_value(s.last())
    }
}

/// The decimal digits written for any natural number read back as that number.
pub proof fn lemma_decimal_digits_value(n: nat)
    ensures
        digits_value(decimal_digits(n)) == n,
    decreases n,
{
    lemma_digit_char((n % 10) as int);
    let d = decimal_digits(n);
    assert(d.last() == digit_char((n % 10) as int));
    if n < 10 {
        assert(d.drop_last() =~= Seq::<char>::empty());
        assert(digits_value(d) == digits_value(d.drop_last()) * 10 + digit_value(d.last()));
    } else {
        lemma_decimal_digits_value(n / 10);
        assert(d.drop_last() =~= decimal_digits(n / 10));
        assert(digits_value(d) == digits_value(d.drop_last()) * 10 + digit_value(d.last()));
        assert((n / 10) * 10 + n % 10 == n) by (nonlinear_arith);
    }
}

/// The decimal text of a `u16` reads back, as a `u16`, as that same number.
pub proof fn lemma_parse_u16_of_decimal(p: u16)
    ensures
        parse_u16_spec(decimal_digits(p as nat)) == Ok::<u16, IntErrorKind>(p),
{
    lemma_decimal_digits_are_digits(p as nat);
    lemma_scan_decimal_digits(p as nat);
    let t = decimal_digits(p as nat);
    assert(is_ascii_digit(t[0]));
}

pub proof fn lemma_find_char_at(s: Seq<char>, c: char, i: int, k: int)
    requires
        0 <= i <= k <= s.len(),
        k < s.len() ==> s[k] == c,
        forall|j: int| i <= j < k ==> s[j] != c,
    ensures
        find_char_from(s, c, i) == k,
    decreases k - i,
{
    if i < k {
        lemma_find_char_at(s, c, i + 1, k);
    }
}

pub proof fn lemma_rfind_char_at(s: Seq<char>, c: char, i: int, k: int)
    requires
        0 <= k < i <= s.len(),
        s[k] == c,
        forall|j: int| k < j < i ==> s[j] != c,
    ensures
        rfind_char_before(s, c, i) == Some(k),
    decreases i,
{
    if i - 1 > k {
        lemma_rfind_char_at(s, c, i - 1, k);
    }
}

pub proof fn lemma_skip_whitespace_at(s: Seq<char>, i: int, k: int)
    requires
        0 <= i <= k <= s.len(),
        k < s.len() ==> !is_whitespace(s[k]),
        forall|j: int| i <= j < k ==> is_whitespace(s[j]),
    ensures
        skip_whitespace_from(s, i) == k,
    decreases k - i,
{
    if i < k {
        lemma_skip_whitespace_at(s, i + 1, k);
    }
}

pub proof fn lemma_token_end_at(s: Seq<char>, i: int, k: int)
    requires
        0 <= i <= k <= s.len(),
        k < s.len() ==> is_whitespace(s[k]),
        forall|j: int| i <= j < k ==> !is_whitespace(s[j]),
    ensures
        token_end_from(s, i) == k,
    decreases k - i,
{
    if i < k {
        lemma_token_end_at(s, i + 1, k);
    }
}

/// `String::push`: appends `c` to `s`.
#[verifier::external_body]
pub fn push_char(s: &mut String, c: char)
    ensures
        final(s)@ == old(s)@.push(c),
{
    s.push(c);
}

/// Whether `c` is whitespace in the sense of `char::is_whitespace`.
pub fn char_is_whitespace(c: char) -> (b: bool)
    ensures
        b == is_whitespace(c),
{
    ('\u{9}' <= c && c <= '\u{d}') || c == ' ' || c == '\u{85}' || c == '\u{a0}' || c == '\u{1680}'
        || ('\u{2000}' <= c && c <= '\u{200a}') || c == '\u{2028}' || c == '\u{2029}' || c
        == '\u{202f}' || c == '\u{205f}' || c == '\u{3000}'
}

/// Appends the decimal digits of `n` to `out`.
pub fn push_decimal_digits(out: &mut String, n: u64)
    ensures
        final(out)@ == old(out)@ + decimal_digits(n as nat),
    decreases n,
{
    if n >= 10 {
        push_decimal_digits(out, n / 10);
    }
    let d: u8 = (n % 10) as u8;
    let c: char = (d + 48) as char;
    push_char(out, c);
    proof {
        assert(digit_char((n % 10) as int) == c);
        if n >= 10 {
            assert(decimal_digits(n as nat) == decimal_digits((n / 10) as nat).push(c));
        } else {
            assert(decimal_digits(n as nat) == seq![c]);
        }
    }
}

/// Appends the decimal text of `n` (with a leading `-` when negative) to `out`.
pub fn push_decimal(out: &mut String, n: i64)
    ensures
        final(out)@ == old(out)@ + decimal_text(n as int),
{
    if n < 0 {
        push_char(out, '-');
        let magnitude: u64 = if n == i64::MIN {
            9223372036854775808u64
        } else {
            (-n) as u64
        };
        push_decimal_digits(out, magnitude);
        proof {
            assert(old(out)@ + decimal_text(n as int) == old(out)@.push('-') + decimal_digits(
                magnitude as nat,
            ));
        }
    } else {
        push_decimal_digits(out, n as u64);
    }
}

/// Reads `s@.subrange(start, end)` as a `u16`, as `str::parse::<u16>` does.
pub fn parse_u16_range(s: &str, start: usize, end: usize) -> (r: Result<u16, IntErrorKind>)
    requires
        start <= end <= s@.len(),
    ensures
        r == parse_u16_spec(s@.subrange(start as int, end as int)),
{
    let ghost t = s@.subrange(start as int, end as int);
    if start == end {
        return Err(IntErrorKind::Empty);
    }
    let first = s.get_char(start);
    if end - start == 1 && (first == '+' || first == '-') {
        return Err(IntErrorKind::InvalidDigit);
    }
    let mut i: usize = if first == '+' { start + 1 } else { start };
    let mut acc: u32 = 0;
    assert(t[0] == first);
    while i < end
        invariant
            start <= i <= end,
            end <= s@.len(),
            t == s@.subrange(start as int, end as int),
            t.len() > 0,
            acc <= 65535,
            i > start || t[0] != '+',
            scan_decimal_u16(t, (i - start) as int, acc as int) == scan_decimal_u16(
                t,
                if t[0] == '+' { 1int } else { 0int },
                0,
            ),
        decreases end - i,
    {
        let c = s.get_char(i);
        assert(t[(i - start) as int] == c);
        if !('0' <= c && c <= '9') {
            return Err(IntErrorKind::InvalidDigit);
        }
        let d: u32 = (c as u32) - 48;
        if acc * 10 + d > 65535 {
            return Err(IntErrorKind::PosOverflow);
        }
        acc = acc * 10 + d;
        i = i + 1;
    }
    Ok(acc as u16)
}

} // verus!
