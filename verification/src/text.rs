//! Helpers on text that the rest of the crate shares.

use vstd::prelude::*;
use vstd::string::StringExecFns;
use vstd::utf8::encode_utf8;
use vstd::utf8::encode_utf8_decode_utf8;

verus! {

/// Whether two texts hold the same characters.
///
/// The comparison walks the UTF-8 bytes; that equal bytes mean equal
/// characters follows from decoding being the inverse of encoding.
pub fn str_eq(a: &str, b: &str) -> (same: bool)
    ensures
        same == (a@ == b@),
{
    let x = a.as_bytes();
    let y = b.as_bytes();
    if x.len() != y.len() {
        return false;
    }
    let mut i: usize = 0;
    while i < x.len()
        invariant
            x@ == encode_utf8(a@),
            y@ == encode_utf8(b@),
            x@.len() == y@.len(),
            i <= x@.len(),
            forall|j: int| 0 <= j < i ==> x@[j] == y@[j],
        decreases x@.len() - i,
    {
        if x[i] != y[i] {
            return false;
        }
        i = i + 1;
    }
    proof {
        assert(x@ =~= y@);
        encode_utf8_decode_utf8(a@);
        encode_utf8_decode_utf8(b@);
    }
    true
}

/// Joins two texts.
pub fn concat(a: &str, b: &str) -> (joined: String)
    ensures
        joined@ == a@ + b@,
{
    let mut joined = a.to_owned();
    joined.append(b);
    joined
}

/// The character of a decimal digit.
pub open spec fn digit_char(d: int) -> char {
    (48 + d) as char
}

/// The decimal digits of a natural number, most significant first.
pub open spec fn decimal_digits(n: nat) -> Seq<char>
    decreases n,
{
    if n < 10 {
        seq![digit_char(n as int)]
    } else {
        decimal_digits(n / 10).push(digit_char((n % 10) as int))
    }
}

/// An integer written in decimal, with a leading `-` below zero.
pub open spec fn decimal_text(n: int) -> Seq<char> {
    if n < 0 {
        seq!['-'] + decimal_digits((-n) as nat)
    } else {
        decimal_digits(n as nat)
    }
}

/// The text of one decimal digit.
fn digit_str(d: u64) -> (s: &'static str)
    requires
        d < 10,
    ensures
        s@ == seq![digit_char(d as int)],
{
    proof {
        reveal_strlit("0");
        reveal_strlit("1");
        reveal_strlit("2");
        reveal_strlit("3");
        reveal_strlit("4");
        reveal_strlit("5");
        reveal_strlit("6");
        reveal_strlit("7");
        reveal_strlit("8");
        reveal_strlit("9");
    }
    let s = if d == 0 {
        "0"
    } else if d == 1 {
        "1"
    } else if d == 2 {
        "2"
    } else if d == 3 {
        "3"
    } else if d == 4 {
        "4"
    } else if d == 5 {
        "5"
    } else if d == 6 {
        "6"
    } else if d == 7 {
        "7"
    } else if d == 8 {
        "8"
    } else {
        "9"
    };
    assert(s@ =~= seq![digit_char(d as int)]);
    s
}

/// Writes a natural number in decimal.
pub fn decimal_of_u64(n: u64) -> (text: String)
    ensures
        text@ == decimal_digits(n as nat),
    decreases n,
{
    if n < 10 {
        digit_str(n).to_owned()
    } else {
        let head = decimal_of_u64(n / 10);
        let joined = concat(head.as_str(), digit_str(n % 10));
        assert(joined@ =~= decimal_digits((n / 10) as nat).push(digit_char((n % 10) as int)));
        joined
    }
}

/// Writes an integer in decimal.
pub fn decimal_string(n: i64) -> (text: String)
    ensures
        text@ == decimal_text(n as int),
{
    if n < 0 {
        let magnitude: u64 = (-(n as i128)) as u64;
        let digits = decimal_of_u64(magnitude);
        proof {
            reveal_strlit("-");
        }
        let joined = concat("-", digits.as_str());
        assert(joined@ =~= seq!['-'] + decimal_digits((-n) as nat));
        joined
    } else {
        decimal_of_u64(n as u64)
    }
}

/// The characters of a text, one by one.
pub fn chars_of(s: &str) -> (v: Vec<char>)
    ensures
        v@ == s@,
{
    let mut v: Vec<char> = Vec::new();
    for c in iter: s.chars()
        invariant
            iter.seq() == s@,
            v@ == s@.take(iter.index()),
    {
        v.push(c);
        assert(s@.take(iter.index() + 1) =~= s@.take(iter.index()).push(c));
    }
    assert(s@.take(s@.len() as int) =~= s@);
    v
}

/// The pattern occurs in the text at the place `i`.
pub open spec fn occurs_at(text: Seq<char>, pattern: Seq<char>, i: int) -> bool {
    0 <= i && i + pattern.len() <= text.len() && text.subrange(i, i + pattern.len()) == pattern
}

/// The pattern occurs somewhere in the text.
pub open spec fn has_substring(text: Seq<char>, pattern: Seq<char>) -> bool {
    exists|i: int| occurs_at(text, pattern, i)
}

/// Whether the pattern occurs in the text at the place `i`.
fn matches_at(text: &Vec<char>, pattern: &Vec<char>, i: usize) -> (found: bool)
    requires
        i + pattern@.len() <= text@.len(),
    ensures
        found == occurs_at(text@, pattern@, i as int),
{
    let total = text.len();
    let mut k: usize = 0;
    while k < pattern.len()
        invariant
            k <= pattern@.len(),
            i + pattern@.len() <= text@.len() == total,
            forall|j: int| 0 <= j < k ==> text@[i + j] == pattern@[j],
        decreases pattern@.len() - k,
    {
        if text[i + k] != pattern[k] {
            assert(text@.subrange(i as int, i + pattern@.len())[k as int] != pattern@[k as int]);
            return false;
        }
        k = k + 1;
    }
    assert(text@.subrange(i as int, i + pattern@.len()) =~= pattern@);
    true
}

/// Whether the pattern occurs somewhere in the text.
pub fn contains_text(text: &str, pattern: &str) -> (found: bool)
    ensures
        found == has_substring(text@, pattern@),
{
    let t = chars_of(text);
    let p = chars_of(pattern);
    if p.len() > t.len() {
        return false;
    }
    let last = t.len() - p.len();
    let mut i: usize = 0;
    loop
        invariant
            i <= last,
            last == t@.len() - p@.len(),
            t@ == text@,
            p@ == pattern@,
            forall|j: int| 0 <= j < i ==> !occurs_at(t@, p@, j),
        decreases last - i,
    {
        if matches_at(&t, &p, i) {
            return true;
        }
        if i == last {
            return false;
        }
        i = i + 1;
    }
}

/// Whether a character is a decimal digit.
pub open spec fn is_digit(c: char) -> bool {
    '0' <= c <= '9'
}

/// The number that decimal digits write, read from the left.
pub open spec fn digits_value(digits: Seq<char>) -> nat
    decreases digits.len(),
{
    if digits.len() == 0 {
        0
    } else {
        digits_value(digits.drop_last()) * 10 + (digits.last() as nat - '0' as nat) as nat
    }
}

/// Whether a text is one or more decimal digits.
pub open spec fn all_digits(digits: Seq<char>) -> bool {
    digits.len() > 0 && forall|i: int| 0 <= i < digits.len() ==> is_digit(#[trigger] digits[i])
}

/// The integer that a text writes in decimal: digits, with `+` or, where
/// `signed`, `-` before them if any sign at all. `None` where the text is
/// nothing of the kind.
pub open spec fn written_integer(text: Seq<char>, signed: bool) -> Option<int> {
    if text.len() > 0 && text[0] == '+' {
        if all_digits(text.skip(1)) {
            Some(digits_value(text.skip(1)) as int)
        } else {
            None
        }
    } else if signed && text.len() > 0 && text[0] == '-' {
        if all_digits(text.skip(1)) {
            Some(-(digits_value(text.skip(1)) as int))
        } else {
            None
        }
    } else if all_digits(text) {
        Some(digits_value(text) as int)
    } else {
        None
    }
}

/// The integer that a text writes, if it writes one within the bounds.
pub open spec fn integer_within(text: Seq<char>, signed: bool, min: int, max: int) -> Option<int> {
    match written_integer(text, signed) {
        Some(v) => if min <= v <= max {
            Some(v)
        } else {
            None
        },
        None => None,
    }
}

/// The value of digits never falls when a digit is added.
proof fn lemma_digits_grow(digits: Seq<char>, k: int)
    requires
        0 <= k <= digits.len(),
        forall|i: int| 0 <= i < digits.len() ==> is_digit(#[trigger] digits[i]),
    ensures
        digits_value(digits.take(k)) <= digits_value(digits),
    decreases digits.len() - k,
{
    if k < digits.len() {
        lemma_digits_grow(digits, k + 1);
        assert(digits.take(k + 1).drop_last() =~= digits.take(k));
        assert(is_digit(digits[k]));
    } else {
        assert(digits.take(k) =~= digits);
    }
}

/// Reads an integer written in decimal: an optional sign, then digits and
/// nothing else; a number outside the bounds is no number.
fn parse_integer(text: &str, signed: bool, min: i128, max: i128) -> (res: Option<i128>)
    requires
        -0x1_0000_0000_0000_0000 <= min <= 0 <= max <= 0x1_0000_0000_0000_0000,
    ensures
        res matches Some(v) ==> integer_within(text@, signed, min as int, max as int) == Some(
            v as int,
        ),
        res is None ==> integer_within(text@, signed, min as int, max as int) is None,
{
    let chars = chars_of(text);
    let mut start: usize = 0;
    let mut negative = false;
    if chars.len() > 0 && chars[0] == '+' {
        start = 1;
    } else if signed && chars.len() > 0 && chars[0] == '-' {
        start = 1;
        negative = true;
    }
    if start >= chars.len() {
        assert(!all_digits(text@.skip(start as int)));
        assert(text@.skip(0) =~= text@);
        return None;
    }
    let ghost digits = text@.skip(start as int);
    let ghost sign: int = if negative {
        -1
    } else {
        1
    };
    assert(text@.skip(0) =~= text@);
    assert(written_integer(text@, signed) == if all_digits(digits) {
        Some(sign * digits_value(digits))
    } else {
        None::<int>
    });
    let mut acc: i128 = 0;
    let mut i: usize = start;
    assert(digits.take(0) =~= Seq::empty());
    while i < chars.len()
        invariant
            start <= i <= chars@.len(),
            chars@ == text@,
            digits == text@.skip(start as int),
            digits.len() == chars@.len() - start,
            sign == 1 || sign == -1,
            -0x1_0000_0000_0000_0000 <= min <= 0 <= max <= 0x1_0000_0000_0000_0000,
            written_integer(text@, signed) == if all_digits(digits) {
                Some(sign * digits_value(digits))
            } else {
                None::<int>
            },
            forall|j: int| 0 <= j < i - start ==> is_digit(#[trigger] digits[j]),
            acc == digits_value(digits.take(i - start)),
            0 <= acc <= 0x1_0000_0000_0000_0000,
        decreases chars@.len() - i,
    {
        let c = chars[i];
        if !(c >= '0' && c <= '9') {
            assert(!is_digit(digits[i - start]));
            return None;
        }
        let d: i128 = (c as u32 - '0' as u32) as i128;
        proof {
            assert(digits.take(i - start + 1).drop_last() =~= digits.take(i - start));
            assert(digits.take(i - start + 1).last() == c);
        }
        let next: i128 = acc * 10 + d;
        if next > 0x1_0000_0000_0000_0000 {
            proof {
                // More digits never lower the value, so the number lies
                // outside every bound that is admitted.
                if all_digits(digits) {
                    lemma_digits_grow(digits, i - start + 1);
                }
            }
            return None;
        }
        acc = next;
        i = i + 1;
    }
    assert(digits.take(i - start) =~= digits);
    let value: i128 = if negative {
        -acc
    } else {
        acc
    };
    if value < min || value > max {
        None
    } else {
        Some(value)
    }
}

/// The 64-bit integer that a text writes, if it writes one.
pub open spec fn written_i64(text: Seq<char>) -> Option<i64> {
    match integer_within(text, true, i64::MIN as int, i64::MAX as int) {
        Some(v) => Some(v as i64),
        None => None,
    }
}

/// The 32-bit integer that a text writes, if it writes one.
pub open spec fn written_i32(text: Seq<char>) -> Option<i32> {
    match integer_within(text, true, i32::MIN as int, i32::MAX as int) {
        Some(v) => Some(v as i32),
        None => None,
    }
}

/// The size that a text writes, if it writes one. A size has no sign but
/// `+`.
pub open spec fn written_usize(text: Seq<char>) -> Option<usize> {
    match integer_within(text, false, 0, usize::MAX as int) {
        Some(v) => Some(v as usize),
        None => None,
    }
}

/// The 16-bit natural number that a text writes, if it writes one.
pub open spec fn written_u16(text: Seq<char>) -> Option<u16> {
    match integer_within(text, false, 0, u16::MAX as int) {
        Some(v) => Some(v as u16),
        None => None,
    }
}

/// Reads a 64-bit integer, as `str::parse` does.
pub fn parse_i64(text: &str) -> (res: Option<i64>)
    ensures
        res == written_i64(text@),
{
    match parse_integer(text, true, i64::MIN as i128, i64::MAX as i128) {
        Some(v) => Some(v as i64),
        None => None,
    }
}

/// Reads a 32-bit integer, as `str::parse` does.
pub fn parse_i32(text: &str) -> (res: Option<i32>)
    ensures
        res == written_i32(text@),
{
    match parse_integer(text, true, i32::MIN as i128, i32::MAX as i128) {
        Some(v) => Some(v as i32),
        None => None,
    }
}

/// Reads a size, as `str::parse` does.
pub fn parse_usize(text: &str) -> (res: Option<usize>)
    ensures
        res == written_usize(text@),
{
    match parse_integer(text, false, 0, usize::MAX as i128) {
        Some(v) => Some(v as usize),
        None => None,
    }
}

/// Reads a 16-bit natural number, as `str::parse` does.
pub fn parse_u16(text: &str) -> (res: Option<u16>)
    ensures
        res == written_u16(text@),
{
    match parse_integer(text, false, 0, u16::MAX as i128) {
        Some(v) => Some(v as u16),
        None => None,
    }
}

/// The truth value that a text writes: `true` or `false`.
pub open spec fn written_bool(text: Seq<char>) -> Option<bool> {
    if text == "true"@ {
        Some(true)
    } else if text == "false"@ {
        Some(false)
    } else {
        None
    }
}

/// Reads a truth value, as `str::parse` does for `bool`.
pub fn parse_bool(text: &str) -> (res: Option<bool>)
    ensures
        res == written_bool(text@),
{
    if str_eq(text, "true") {
        Some(true)
    } else if str_eq(text, "false") {
        Some(false)
    } else {
        None
    }
}

/// What `str::to_lowercase` makes of a text: each character replaced by its
/// lowercase form as Unicode defines it.
pub uninterp spec fn lowercase_text(s: Seq<char>) -> Seq<char>;

/// Trusted: `str::to_lowercase`. The contract only names the result, which
/// the Unicode tables compiled into std make a function of the text.
#[verifier::external_body]
pub(crate) fn to_lowercase(s: &str) -> (lower: String)
    ensures
        lower@ == lowercase_text(s@),
{
    s.to_lowercase()
}

/// A second of Unix time as `chrono` writes it with the pattern
/// `%Y-%m-%d %H:%M:%S` in UTC, or `None` where the second lies outside the
/// years that `chrono` can tell.
pub uninterp spec fn timestamp_text(t: i64) -> Option<Seq<char>>;

/// The characters of an optional text.
pub open spec fn text_view(text: Option<String>) -> Option<Seq<char>> {
    match text {
        Some(t) => Some(t@),
        None => None,
    }
}

/// Trusted: `chrono::DateTime::from_timestamp` and, on what it yields,
/// `format` with the pattern `%Y-%m-%d %H:%M:%S`. The text depends on the
/// second alone, which the contract names.
#[verifier::external_body]
fn format_timestamp(t: i64) -> (text: Option<String>)
    ensures
        text_view(text) == timestamp_text(t),
{
    chrono::DateTime::from_timestamp(t, 0).map(|d| d.format("%Y-%m-%d %H:%M:%S").to_string())
}

/// A second of Unix time as date and time of day, or as a number of seconds
/// where the calendar does not reach it.
pub open spec fn time_text(t: i64) -> Seq<char> {
    match timestamp_text(t) {
        Some(text) => text,
        None => decimal_text(t as int),
    }
}

/// Writes a second of Unix time as date and time of day in UTC.
pub fn time_string(t: i64) -> (text: String)
    ensures
        text@ == time_text(t),
{
    match format_timestamp(t) {
        Some(text) => text,
        None => decimal_string(t),
    }
}

} // verus!
