//! What holds of numbers as text, and of text as numbers.

use super::{all_digits, decimal, digit, digits_value, is_white_space, number, signed_decimal};
use super::{text_value, trim, trim_end, trim_start, unsigned_digits};
use vstd::prelude::*;
use vstd::utf8::{decode_utf8, encode_utf8, encode_utf8_decode_utf8, encode_utf8_valid_utf8};
use vstd::utf8::valid_utf8;

verus! {

/// The digits are `0` to `9` and then `a` to `f`.
pub proof fn law_digits(d: int)
    requires
        0 <= d < 16,
    ensures
        d < 10 ==> digit(d) == 48 + d,
        d >= 10 ==> digit(d) == 97 + (d - 10),
{
}

/// A number below the base is one digit, and a further digit behind a number multiplies it by the base
/// and adds the digit.
pub proof fn law_number(n: int, base: int, d: int)
    requires
        2 <= base <= 16,
        0 < n,
        0 <= d < base,
    ensures
        number(d, base) == seq![digit(d)],
        number(n * base + d, base) == number(n, base).push(digit(d)),
{
    let m = n * base + d;
    assert(m >= base && m / base == n && m % base == d) by (nonlinear_arith)
        requires
            m == n * base + d,
            2 <= base,
            0 < n,
            0 <= d < base,
    ;
}

/// Decimal text is text in base ten. A negative number has a minus sign before the text of the positive
/// one.
pub proof fn law_decimal(n: int)
    requires
        0 < n,
    ensures
        decimal(n) == number(n, 10),
        decimal(0) == seq![48u8],
        signed_decimal(0) == seq![48u8],
        signed_decimal(n) == number(n, 10),
        signed_decimal(-n) == seq![45u8] + number(n, 10),
{
}

/// A further digit multiplies the value of digits by ten and adds its own.
pub proof fn law_digits_value(s: Seq<char>, c: char)
    ensures
        digits_value(Seq::empty()) == 0,
        digits_value(s.push(c)) == digits_value(s) * 10 + (c as int - 48),
{
    assert(s.push(c).drop_last() =~= s);
}

/// The digits of decimal numbers have the codes 48 to 57.
pub proof fn law_all_digits(s: Seq<char>)
    ensures
        all_digits(s) <==> forall|i: int| 0 <= i < s.len() ==> 48 <= #[trigger] s[i] as int <= 57,
{
    if all_digits(s) {
        assert forall|i: int| 0 <= i < s.len() implies 48 <= #[trigger] s[i] as int <= 57 by {}
    }
}

/// The characters that are white space, by their codes.
pub proof fn law_white_space(c: char)
    ensures
        is_white_space(c) <==> {
            let u = c as int;
            ||| 9 <= u <= 13
            ||| u == 32
            ||| u == 133
            ||| u == 160
            ||| u == 5760
            ||| 8192 <= u <= 8202
            ||| u == 8232
            ||| u == 8233
            ||| u == 8239
            ||| u == 8287
            ||| u == 12288
        },
{
}

/// White space only.
pub open spec fn blank(s: Seq<char>) -> bool {
    forall|i: int| 0 <= i < s.len() ==> is_white_space(#[trigger] s[i])
}

/// A plus sign or nothing.
pub open spec fn plus(sign: bool) -> Seq<char> {
    if sign {
        seq!['+']
    } else {
        Seq::empty()
    }
}

proof fn lemma_trim_start(before: Seq<char>, rest: Seq<char>)
    requires
        blank(before),
        rest.len() > 0,
        !is_white_space(rest[0]),
    ensures
        trim_start(before + rest) == rest,
    decreases before.len(),
{
    if before.len() == 0 {
        assert(before + rest =~= rest);
    } else {
        assert(is_white_space(before[0]));
        assert((before + rest).skip(1) =~= before.skip(1) + rest);
        assert forall|i: int| 0 <= i < before.skip(1).len() implies is_white_space(
            #[trigger] before.skip(1)[i],
        ) by {
            assert(before.skip(1)[i] == before[i + 1]);
        }
        lemma_trim_start(before.skip(1), rest);
    }
}

proof fn lemma_trim_end(rest: Seq<char>, after: Seq<char>)
    requires
        blank(after),
        rest.len() > 0,
        !is_white_space(rest.last()),
    ensures
        trim_end(rest + after) == rest,
    decreases after.len(),
{
    if after.len() == 0 {
        assert(rest + after =~= rest);
    } else {
        assert(is_white_space(after.last()));
        assert((rest + after).last() == after.last());
        assert((rest + after).drop_last() =~= rest + after.drop_last());
        lemma_trim_end(rest, after.drop_last());
    }
}

proof fn lemma_trimmed_start(s: Seq<char>) -> (before: Seq<char>)
    ensures
        blank(before),
        s == before + trim_start(s),
    decreases s.len(),
{
    if s.len() > 0 && is_white_space(s[0]) {
        let before = lemma_trimmed_start(s.skip(1));
        let all = seq![s[0]] + before;
        assert(s =~= seq![s[0]] + s.skip(1));
        assert(all + trim_start(s) =~= s);
        all
    } else {
        assert(Seq::<char>::empty() + s =~= s);
        Seq::empty()
    }
}

proof fn lemma_trimmed_end(s: Seq<char>) -> (after: Seq<char>)
    ensures
        blank(after),
        s == trim_end(s) + after,
    decreases s.len(),
{
    if s.len() > 0 && is_white_space(s.last()) {
        let after = lemma_trimmed_end(s.drop_last());
        let all = after.push(s.last());
        assert(s =~= s.drop_last().push(s.last()));
        assert(trim_end(s) + all =~= s);
        all
    } else {
        assert(s + Seq::<char>::empty() =~= s);
        Seq::empty()
    }
}

/// Digits with or without a plus sign before them, and with or without white space around that, are
/// read as the number that the digits stand for, unless it is more than the maximum.
pub proof fn law_numbers_are_read(
    before: Seq<char>,
    sign: bool,
    digits: Seq<char>,
    after: Seq<char>,
    max: int,
)
    requires
        blank(before),
        blank(after),
        digits.len() > 0,
        all_digits(digits),
    ensures
        text_value(encode_utf8(before + plus(sign) + digits + after), max) == if digits_value(digits)
            <= max {
            Some(digits_value(digits))
        } else {
            None
        },
{
    let s = before + plus(sign) + digits + after;
    let mid = plus(sign) + digits;
    encode_utf8_valid_utf8(s);
    encode_utf8_decode_utf8(s);
    assert('0' <= digits[0] <= '9');
    assert(digits.last() == digits[digits.len() - 1]);
    assert('0' <= digits.last() <= '9');
    assert(s =~= before + (mid + after));
    lemma_trim_start(before, mid + after);
    lemma_trim_end(mid, after);
    assert(trim(s) == mid);
    assert(unsigned_digits(mid) =~= digits);
}

/// Nothing else is read as a number.
pub proof fn law_only_numbers_are_read(bytes: Seq<u8>, max: int)
    requires
        text_value(bytes, max) is Some,
    ensures
        valid_utf8(bytes),
        text_value(bytes, max)->0 <= max,
        exists|before: Seq<char>, sign: bool, digits: Seq<char>, after: Seq<char>|
            {
                &&& #[trigger] (before + plus(sign) + digits + after) == decode_utf8(bytes)
                &&& blank(before)
                &&& blank(after)
                &&& digits.len() > 0
                &&& all_digits(digits)
                &&& text_value(bytes, max) == Some(digits_value(digits))
            },
{
    let s = decode_utf8(bytes);
    let before = lemma_trimmed_start(s);
    let after = lemma_trimmed_end(trim_start(s));
    let mid = trim(s);
    let digits = unsigned_digits(mid);
    let sign = mid.len() > 0 && mid[0] == '+';
    assert(plus(sign) + digits =~= mid);
    assert(before + plus(sign) + digits + after =~= s);
}

} // verus!
