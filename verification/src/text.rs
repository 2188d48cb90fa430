//! Numbers as text.

use vstd::prelude::*;
use vstd::string::StrSliceExecFns;
use vstd::utf8::{decode_utf8, encode_utf8, encode_utf8_decode_utf8, encode_utf8_valid_utf8};
use vstd::utf8::{is_ascii_chars, is_ascii_chars_encode_utf8, valid_utf8};

pub mod laws;

verus! {

/// The digit with value `d`: `0` to `9`, then `a` to `f`.
pub open spec fn digit(d: int) -> u8 {
    if d < 10 {
        (48 + d) as u8
    } else {
        (87 + d) as u8
    }
}

/// The text of `n` in a base, without leading zeroes.
pub open spec fn number(n: int, base: int) -> Seq<u8>
    decreases n,
    via number_decreases
{
    if n < base || base < 2 {
        seq![digit(n)]
    } else {
        number(n / base, base).push(digit(n % base))
    }
}

#[via_fn]
proof fn number_decreases(n: int, base: int) {
    if 2 <= base <= n {
        assert(0 <= n / base < n) by (nonlinear_arith)
            requires
                2 <= base <= n,
        ;
    }
}

/// The text of `n` in decimal.
pub open spec fn decimal(n: int) -> Seq<u8> {
    number(n, 10)
}

/// The text of `n` in decimal, with a minus sign where it is negative.
pub open spec fn signed_decimal(n: int) -> Seq<u8> {
    if n < 0 {
        seq![45u8] + decimal(-n)
    } else {
        decimal(n)
    }
}

/// Appends the digit with value `d`.
fn push_digit(out: &mut Vec<u8>, d: u64)
    requires
        d < 16,
    ensures
        final(out)@ == old(out)@.push(digit(d as int)),
{
    if d < 10 {
        out.push(48 + d as u8);
    } else {
        out.push(87 + d as u8);
    }
}

/// Appends the text of `n` in a base.
pub fn push_number(out: &mut Vec<u8>, n: u64, base: u64)
    requires
        2 <= base <= 16,
    ensures
        final(out)@ == old(out)@ + number(n as int, base as int),
    decreases n,
{
    let ghost before = out@;
    if n < base {
        push_digit(out, n);
    } else {
        assert(n / base < n) by (nonlinear_arith)
            requires
                2 <= base <= n,
        ;
        push_number(out, n / base, base);
        push_digit(out, n % base);
    }
    assert(out@ =~= before + number(n as int, base as int));
}

/// Appends the text of `n` in decimal.
pub fn push_decimal(out: &mut Vec<u8>, n: u64)
    ensures
        final(out)@ == old(out)@ + decimal(n as int),
{
    push_number(out, n, 10);
}

/// Appends the text of `n` in decimal, with a minus sign where it is negative.
pub fn push_signed_decimal(out: &mut Vec<u8>, n: i64)
    ensures
        final(out)@ == old(out)@ + signed_decimal(n as int),
{
    let ghost before = out@;
    if n < 0 {
        out.push(45);
        push_decimal(out, (-(n + 1)) as u64 + 1);
    } else {
        push_decimal(out, n as u64);
    }
    assert(out@ =~= before + signed_decimal(n as int));
}

/// Appends some text.
pub fn push_text(out: &mut Vec<u8>, text: &str)
    ensures
        final(out)@ == old(out)@ + encode_utf8(text@),
{
    let bytes = text.as_bytes();
    let ghost before = out@;
    let mut i: usize = 0;
    while i < bytes.len()
        invariant
            i <= bytes.len(),
            bytes@ == encode_utf8(text@),
            out@ == before + bytes@.take(i as int),
        decreases bytes.len() - i,
    {
        out.push(bytes[i]);
        i = i + 1;
        assert(out@ =~= before + bytes@.take(i as int));
    }
    assert(bytes@.take(i as int) =~= bytes@);
}

/// Whether two runs of bytes are the same.
pub fn same_bytes(a: &[u8], b: &[u8]) -> (r: bool)
    ensures
        r == (a@ == b@),
{
    if a.len() != b.len() {
        return false;
    }
    let mut i: usize = 0;
    while i < a.len()
        invariant
            i <= a.len() == b.len(),
            a@.take(i as int) == b@.take(i as int),
        decreases a.len() - i,
    {
        if a[i] != b[i] {
            return false;
        }
        i = i + 1;
        assert(a@.take(i as int) =~= b@.take(i as int));
    }
    assert(a@.take(i as int) =~= a@);
    assert(b@.take(i as int) =~= b@);
    true
}

/// The characters with the Unicode property `White_Space`.
pub open spec fn is_white_space(c: char) -> bool {
    ||| '\u{9}' <= c <= '\u{d}'
    ||| c == '\u{20}'
    ||| c == '\u{85}'
    ||| c == '\u{a0}'
    ||| c == '\u{1680}'
    ||| '\u{2000}' <= c <= '\u{200a}'
    ||| c == '\u{2028}'
    ||| c == '\u{2029}'
    ||| c == '\u{202f}'
    ||| c == '\u{205f}'
    ||| c == '\u{3000}'
}

/// Whether `c` is white space.
fn white_space(c: char) -> (r: bool)
    ensures
        r == is_white_space(c),
{
    ('\u{9}' <= c && c <= '\u{d}') || c == '\u{20}' || c == '\u{85}' || c == '\u{a0}' || c
        == '\u{1680}' || ('\u{2000}' <= c && c <= '\u{200a}') || c == '\u{2028}' || c == '\u{2029}'
        || c == '\u{202f}' || c == '\u{205f}' || c == '\u{3000}'
}

/// `s` without the white space at its start.
pub open spec fn trim_start(s: Seq<char>) -> Seq<char>
    decreases s.len(),
{
    if s.len() > 0 && is_white_space(s[0]) {
        trim_start(s.skip(1))
    } else {
        s
    }
}

/// `s` without the white space at its end.
pub open spec fn trim_end(s: Seq<char>) -> Seq<char>
    decreases s.len(),
{
    if s.len() > 0 && is_white_space(s.last()) {
        trim_end(s.drop_last())
    } else {
        s
    }
}

/// `s` without the white space around it.
pub open spec fn trim(s: Seq<char>) -> Seq<char> {
    trim_end(trim_start(s))
}

/// Every character is a decimal digit.
pub open spec fn all_digits(s: Seq<char>) -> bool {
    forall|i: int| 0 <= i < s.len() ==> '0' <= #[trigger] s[i] <= '9'
}

/// The number that decimal digits stand for.
pub open spec fn digits_value(s: Seq<char>) -> int
    decreases s.len(),
{
    if s.len() == 0 {
        0
    } else {
        digits_value(s.drop_last()) * 10 + (s.last() as int - '0' as int)
    }
}

/// What is left of `s` behind a plus sign.
pub open spec fn unsigned_digits(s: Seq<char>) -> Seq<char> {
    if s.len() > 0 && s[0] == '+' {
        s.skip(1)
    } else {
        s
    }
}

/// The unsigned number that `s` stands for: one or more decimal digits, with or without a plus sign
/// before them, whose value is no more than `max`.
pub open spec fn parse(s: Seq<char>, max: int) -> Option<int> {
    let digits = unsigned_digits(s);
    if digits.len() > 0 && all_digits(digits) && digits_value(digits) <= max {
        Some(digits_value(digits))
    } else {
        None
    }
}

/// The unsigned number of no more than `max` that some text stands for, with or without white space
/// around it.
pub open spec fn text_value(bytes: Seq<u8>, max: int) -> Option<int> {
    if valid_utf8(bytes) {
        parse(trim(decode_utf8(bytes)), max)
    } else {
        None
    }
}

/// Calls [`core::str::from_utf8`]. It gives a string exactly where the bytes are valid UTF-8, and the
/// string is encoded in those bytes.
#[verifier::external_body]
pub(crate) fn from_utf8(bytes: &[u8]) -> (r: Option<&str>)
    ensures
        r is Some <==> valid_utf8(bytes@),
        r matches Some(s) ==> encode_utf8(s@) == bytes@,
{
    core::str::from_utf8(bytes).ok()
}

/// Digits with a value that is too large stay too large with more digits behind them.
proof fn lemma_digits_value_prefix(s: Seq<char>, n: int)
    requires
        all_digits(s),
        0 <= n <= s.len(),
    ensures
        0 <= digits_value(s.take(n)) <= digits_value(s),
    decreases s.len(),
{
    if n < s.len() {
        assert(s.drop_last().take(n) =~= s.take(n));
        lemma_digits_value_prefix(s.drop_last(), n);
    } else {
        assert(s.take(n) =~= s);
        if n > 0 {
            lemma_digits_value_prefix(s.drop_last(), n - 1);
        }
    }
}

/// A number that was read is not negative, and no more than the maximum.
pub proof fn lemma_text_value(bytes: Seq<u8>, max: int)
    ensures
        text_value(bytes, max) matches Some(n) ==> 0 <= n <= max,
{
    let digits = unsigned_digits(trim(decode_utf8(bytes)));
    if all_digits(digits) {
        lemma_digits_value_prefix(digits, 0);
    }
}

/// The unsigned number that the characters of `s` from `lo` to `hi` stand for.
fn parse_range(s: &str, lo: usize, hi: usize, max: u64) -> (r: Option<u64>)
    requires
        lo <= hi <= s@.len(),
    ensures
        match parse(s@.subrange(lo as int, hi as int), max as int) {
            Some(n) => r == Some(n as u64) && 0 <= n <= max,
            None => r is None,
        },
{
    let ghost text = s@.subrange(lo as int, hi as int);
    let mut i = lo;
    if i < hi && s.get_char(i) == '+' {
        i = i + 1;
    }
    let start = i;
    let ghost digits = unsigned_digits(text);
    assert(digits =~= s@.subrange(start as int, hi as int));
    if start == hi {
        return None;
    }
    let mut value: u64 = 0;
    assert(digits.take(0) =~= Seq::empty());
    while i < hi
        invariant
            start <= i <= hi <= s@.len(),
            start < hi,
            digits == s@.subrange(start as int, hi as int),
            digits == unsigned_digits(text),
            text == s@.subrange(lo as int, hi as int),
            all_digits(digits.take(i - start)),
            value == digits_value(digits.take(i - start)),
            value <= max,
        decreases hi - i,
    {
        let c = s.get_char(i);
        let ghost before = digits.take(i - start);
        let ghost after = digits.take(i - start + 1);
        assert(after.drop_last() =~= before);
        assert(after.last() == c);
        if c < '0' || '9' < c {
            assert(digits[i - start] == c);
            return None;
        }
        let d: u64 = (c as u32 - '0' as u32) as u64;
        assert(all_digits(after)) by {
            assert forall|j: int| 0 <= j < after.len() implies '0' <= #[trigger] after[j]
                <= '9' by {
                if j < before.len() {
                    assert(before[j] == after[j]);
                }
            }
        }
        if d > max || value > (max - d) / 10 {
            proof {
                if all_digits(digits) {
                    lemma_digits_value_prefix(digits, i - start + 1);
                }
            }
            return None;
        }
        value = value * 10 + d;
        i = i + 1;
    }
    assert(digits.take(hi - start) =~= digits);
    Some(value)
}

/// The unsigned number of no more than `max` that some text stands for, with or without white space
/// around it.
pub fn parse_text(bytes: &[u8], max: u64) -> (r: Option<u64>)
    ensures
        match text_value(bytes@, max as int) {
            Some(n) => r == Some(n as u64) && 0 <= n <= max,
            None => r is None,
        },
{
    let s = match from_utf8(bytes) {
        Some(s) => s,
        None => {
            return None;
        },
    };
    proof {
        encode_utf8_decode_utf8(s@);
    }
    let mut lo: usize = 0;
    let mut hi: usize = s.unicode_len();
    assert(s@.skip(0) =~= s@);
    while lo < hi && white_space(s.get_char(lo))
        invariant
            lo <= hi == s@.len(),
            trim_start(s@) == trim_start(s@.skip(lo as int)),
        decreases hi - lo,
    {
        assert(s@.skip(lo as int).skip(1) =~= s@.skip(lo as int + 1));
        lo = lo + 1;
    }
    assert(s@.skip(lo as int) =~= s@.subrange(lo as int, hi as int));
    while lo < hi && white_space(s.get_char(hi - 1))
        invariant
            lo <= hi <= s@.len(),
            trim(s@) == trim_end(s@.subrange(lo as int, hi as int)),
        decreases hi,
    {
        assert(s@.subrange(lo as int, hi as int).drop_last() =~= s@.subrange(
            lo as int,
            hi as int - 1,
        ));
        hi = hi - 1;
    }
    parse_range(s, lo, hi, max)
}

/// Bytes as characters, one for one.
pub open spec fn chars(bytes: Seq<u8>) -> Seq<char> {
    Seq::new(bytes.len(), |i: int| bytes[i] as char)
}

/// The decimal text of a number consists of digits that stand for the number.
pub proof fn lemma_decimal(n: int)
    requires
        0 <= n,
    ensures
        decimal(n).len() > 0,
        forall|i: int| 0 <= i < decimal(n).len() ==> 48 <= #[trigger] decimal(n)[i] <= 57,
        digits_value(chars(decimal(n))) == n,
    decreases n,
{
    let s = decimal(n);
    if n < 10 {
        assert(chars(s).drop_last() =~= Seq::empty());
        assert(digits_value(chars(s)) == digits_value(chars(s).drop_last()) * 10 + (
        chars(s).last() as int - '0' as int));
    } else {
        lemma_decimal(n / 10);
        assert(s == decimal(n / 10).push(digit(n % 10)));
        assert(chars(s).drop_last() =~= chars(decimal(n / 10)));
    }
}

/// The number that is written as a one with `k` zeroes.
pub open spec fn power_of_ten(k: int) -> int
    decreases k,
{
    if k <= 0 {
        1
    } else {
        10 * power_of_ten(k - 1)
    }
}

/// A number below the one with `k` zeroes has no more than `k` digits.
pub proof fn lemma_decimal_len(n: int, k: int)
    requires
        1 <= k,
        0 <= n < power_of_ten(k),
    ensures
        decimal(n).len() <= k,
    decreases k,
{
    if n >= 10 {
        reveal_with_fuel(power_of_ten, 2);
        lemma_decimal_len(n / 10, k - 1);
    }
}

/// Bytes below 128 are valid UTF-8 and stand for one character each.
pub proof fn lemma_ascii(bytes: Seq<u8>)
    requires
        forall|i: int| 0 <= i < bytes.len() ==> #[trigger] bytes[i] < 128,
    ensures
        valid_utf8(bytes),
        decode_utf8(bytes) == chars(bytes),
{
    let c = chars(bytes);
    assert(is_ascii_chars(c));
    is_ascii_chars_encode_utf8(c);
    encode_utf8_valid_utf8(c);
    encode_utf8_decode_utf8(c);
    assert(encode_utf8(c) =~= bytes);
}

/// The text of a number, on a line of its own, is read as that number.
pub proof fn law_decimal_is_read_back(n: int, max: int)
    requires
        0 <= n <= max,
    ensures
        text_value(decimal(n).push(10), max) == Some(n),
{
    let line = decimal(n).push(10);
    lemma_decimal(n);
    assert forall|i: int| 0 <= i < line.len() implies #[trigger] line[i] < 128 by {
        if i < decimal(n).len() {
            assert(line[i] == decimal(n)[i]);
        }
    }
    lemma_ascii(line);
    let s = chars(line);
    let digits = chars(decimal(n));
    assert(s.drop_last() =~= digits);
    assert(line[0] == decimal(n)[0]);
    assert(trim_start(s) == s);
    assert(is_white_space(s.last()));
    assert(digits.last() == decimal(n)[decimal(n).len() - 1] as char);
    assert(trim_end(digits) == digits);
    assert(trim(s) == digits);
    assert(digits[0] == decimal(n)[0] as char);
    assert(unsigned_digits(digits) == digits);
    assert(all_digits(digits)) by {
        assert forall|i: int| 0 <= i < digits.len() implies '0' <= #[trigger] digits[i] <= '9' by {
            assert(48 <= decimal(n)[i] <= 57);
        }
    }
}

} // verus!
