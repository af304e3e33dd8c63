//! ASCII decimal numbers: how the codec reads them, through the `atoi`
//! crate, and how it writes them.
use vstd::prelude::*;
use vstd::utf8::*;


verus! {

/// The ASCII code of `0`.
pub const ZERO: u8 = 48;

/// The ASCII code of `+`.
pub const PLUS: u8 = 43;

/// The ASCII code of `-`.
pub const MINUS: u8 = 45;

/// Whether `b` is an ASCII decimal digit.
pub open spec fn is_digit(b: u8) -> bool {
    ZERO <= b <= ZERO + 9
}

/// Whether `b` is a sign character.
pub open spec fn is_sign(b: u8) -> bool {
    b == PLUS || b == MINUS
}

/// How many ASCII digits `s` starts with.
pub open spec fn digit_run(s: Seq<u8>) -> nat
    decreases s.len(),
{
    if s.len() > 0 && is_digit(s[0]) {
        1 + digit_run(s.skip(1))
    } else {
        0
    }
}

/// The number that the digits of `s` spell, most significant digit first.
pub open spec fn digits_value(s: Seq<u8>) -> nat
    decreases s.len(),
{
    if s.len() == 0 {
        0
    } else {
        digits_value(s.drop_last()) * 10 + (s.last() - ZERO) as nat
    }
}

/// The integer that `text` starts with: an optional sign, then the longest
/// run of digits. A sign alone, or a sign before something that is no digit,
/// reads as zero. `None` where `text` starts with neither a sign nor a digit.
pub open spec fn leading_integer(text: Seq<u8>) -> Option<int> {
    let signed = text.len() > 0 && is_sign(text[0]);
    let start: int = if signed { 1 } else { 0 };
    let run = digit_run(text.skip(start));
    if !signed && run == 0 {
        None
    } else {
        let magnitude = digits_value(text.subrange(start, start + run));
        if signed && text[0] == MINUS {
            Some(-magnitude)
        } else {
            Some(magnitude as int)
        }
    }
}

/// What `atoi` returns for `text` when it reads a signed 64-bit integer.
pub open spec fn leading_i64(text: Seq<u8>) -> Option<i64> {
    match leading_integer(text) {
        Some(v) => if i64::MIN <= v <= i64::MAX {
            Some(v as i64)
        } else {
            None
        },
        None => None,
    }
}

/// What `atoi` returns for `text` when it reads an unsigned 64-bit integer.
pub open spec fn leading_u64(text: Seq<u8>) -> Option<u64> {
    match leading_integer(text) {
        Some(v) => if 0 <= v <= u64::MAX {
            Some(v as u64)
        } else {
            None
        },
        None => None,
    }
}

/// Calls `atoi::atoi::<i64>`. The crate reads an optional sign and then
/// every digit that follows, ignores what comes after the digits, and checks
/// each step for overflow: the result is the integer that `text` starts
/// with, or `None` where there is none or where it does not fit an `i64`.
#[verifier::external_body]
pub(crate) fn atoi_i64(text: &[u8]) -> (r: Option<i64>)
    ensures
        r == leading_i64(text@),
{
    atoi::atoi::<i64>(text)
}

/// Calls `atoi::atoi::<u64>`. As for `i64`, with the bounds of `u64`: after
/// a minus sign only zero fits.
#[verifier::external_body]
pub(crate) fn atoi_u64(text: &[u8]) -> (r: Option<u64>)
    ensures
        r == leading_u64(text@),
{
    atoi::atoi::<u64>(text)
}

/// The decimal digits of `n`, most significant first, without leading zeros.
pub open spec fn decimal(n: nat) -> Seq<u8>
    decreases n,
{
    if n < 10 {
        seq![(ZERO + n) as u8]
    } else {
        decimal(n / 10).push((ZERO + n % 10) as u8)
    }
}

/// The decimal text of `v`: a minus sign where `v` is negative, never a plus
/// sign.
pub open spec fn signed_decimal(v: int) -> Seq<u8> {
    if v < 0 {
        seq![MINUS] + decimal((-v) as nat)
    } else {
        decimal(v as nat)
    }
}

/// Whether every byte of `s` is a digit.
pub open spec fn all_digits(s: Seq<u8>) -> bool {
    forall|i: int| 0 <= i < s.len() ==> is_digit(#[trigger] s[i])
}

/// A run of digits is as long as the sequence when the sequence holds
/// nothing else.
pub proof fn lemma_digit_run_all(s: Seq<u8>)
    requires
        all_digits(s),
    ensures
        digit_run(s) == s.len(),
    decreases s.len(),
{
    if s.len() > 0 {
        lemma_digit_run_all(s.skip(1));
    }
}

/// The decimal text of `n` consists of digits and spells `n`.
pub proof fn lemma_decimal(n: nat)
    ensures
        decimal(n).len() >= 1,
        all_digits(decimal(n)),
        digits_value(decimal(n)) == n,
    decreases n,
{
    if n < 10 {
        let s = decimal(n);
        assert(digits_value(s.drop_last()) == 0);
    } else {
        lemma_decimal(n / 10);
        let s = decimal(n);
        assert(s.drop_last() =~= decimal(n / 10));
    }
}

/// Reading the decimal text of `v` gives `v` back.
pub proof fn lemma_leading_integer_of_decimal(v: int)
    ensures
        leading_integer(signed_decimal(v)) == Some(v),
{
    let text = signed_decimal(v);
    if v < 0 {
        let d = decimal((-v) as nat);
        lemma_decimal((-v) as nat);
        assert(text.skip(1) =~= d);
        lemma_digit_run_all(d);
    } else {
        let d = decimal(v as nat);
        lemma_decimal(v as nat);
        assert(text.skip(0) =~= d);
        lemma_digit_run_all(d);
    }
}

/// Appends the decimal text of `v` to `out`.
pub fn push_decimal(out: &mut Vec<u8>, v: u128)
    ensures
        final(out)@ == old(out)@ + decimal(v as nat),
    decreases v,
{
    if v >= 10 {
        push_decimal(out, v / 10);
    }
    let digit: u8 = ZERO + (v % 10) as u8;
    out.push(digit);
}

/// The characters of the decimal text of `n`.
pub open spec fn decimal_chars(n: nat) -> Seq<char> {
    Seq::new(decimal(n).len(), |i: int| decimal(n)[i] as char)
}

/// The decimal text of `v` as a string.
pub fn decimal_string(v: u128) -> (text: String)
    ensures
        text@ == decimal_chars(v as nat),
{
    let mut digits: Vec<u8> = Vec::new();
    push_decimal(&mut digits, v);
    proof {
        let chars = decimal_chars(v as nat);
        lemma_decimal(v as nat);
        is_ascii_chars_encode_utf8(chars);
        assert(encode_utf8(chars) =~= digits@);
        encode_utf8_valid_utf8(chars);
        encode_utf8_decode_utf8(chars);
    }
    match String::from_utf8(digits) {
        Ok(text) => text,
        Err(_) => String::new(),
    }
}

/// Appends the decimal text of `v` to `out`, with a minus sign where `v` is
/// negative.
pub fn push_signed_decimal(out: &mut Vec<u8>, v: i64)
    ensures
        final(out)@ == old(out)@ + signed_decimal(v as int),
{
    if v < 0 {
        out.push(MINUS);
        let magnitude: u128 = (-(v + 1)) as u128 + 1;
        push_decimal(out, magnitude);
    } else {
        push_decimal(out, v as u128);
    }
}

} // verus!
