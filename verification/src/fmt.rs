//! Verified plain-text number formatting: decimal integers, two-digit
//! zero-padded fields, lowercase hex bytes, and the `H:MM:SS.CC` timestamps
//! of the subtitle format.

use vstd::prelude::*;

use crate::text::push_char;

verus! {

/// The character for one decimal digit.
pub open spec fn digit_char(d: int) -> char {
    ((0x30 + d) as u8) as char
}

/// Decimal digits of `n`, most significant first, no sign, no padding.
pub open spec fn dec_str(n: nat) -> Seq<char>
    decreases n,
{
    if n < 10 {
        seq![digit_char(n as int)]
    } else {
        dec_str(n / 10) + seq![digit_char((n % 10) as int)]
    }
}

/// Signed decimal: a leading `-` for negative values.
pub open spec fn int_str(v: int) -> Seq<char> {
    if v < 0 {
        seq!['-'] + dec_str((-v) as nat)
    } else {
        dec_str(v as nat)
    }
}

/// Two decimal digits, zero padded; `n` must lie in `0..100`.
pub open spec fn two_dec(n: int) -> Seq<char> {
    seq![digit_char(n / 10), digit_char(n % 10)]
}

/// A lowercase hexadecimal digit.
pub open spec fn hex_digit(d: int) -> char {
    if d < 10 {
        digit_char(d)
    } else {
        ((0x61 + (d - 10)) as u8) as char
    }
}

/// One byte as two lowercase hexadecimal digits.
pub open spec fn hex2(b: int) -> Seq<char> {
    seq![hex_digit(b / 16), hex_digit(b % 16)]
}

/// A timestamp in centiseconds rendered as `H:MM:SS.CC`; negative times
/// clamp to zero.
pub open spec fn ass_time(cs: int) -> Seq<char> {
    let t = if cs < 0 {
        0
    } else {
        cs
    };
    dec_str((t / 360000) as nat) + seq![':'] + two_dec((t / 6000) % 60) + seq![':'] + two_dec(
        (t / 100) % 60,
    ) + seq!['.'] + two_dec(t % 100)
}

fn digit_of(d: u8) -> (r: char)
    requires
        d < 10,
    ensures
        r == digit_char(d as int),
{
    (0x30 + d) as char
}

fn hex_digit_of(d: u8) -> (r: char)
    requires
        d < 16,
    ensures
        r == hex_digit(d as int),
{
    if d < 10 {
        digit_of(d)
    } else {
        (0x61 + (d - 10)) as char
    }
}

/// Appends the decimal digits of `n`.
pub fn push_dec_u64(buf: &mut String, n: u64)
    ensures
        final(buf)@ == old(buf)@ + dec_str(n as nat),
    decreases n,
{
    if n < 10 {
        push_char(buf, digit_of(n as u8));
        assert(buf@ =~= old(buf)@ + dec_str(n as nat));
    } else {
        push_dec_u64(buf, n / 10);
        push_char(buf, digit_of((n % 10) as u8));
        assert(buf@ =~= old(buf)@ + dec_str(n as nat));
    }
}

/// Appends the signed decimal form of `v`.
pub fn push_dec_i64(buf: &mut String, v: i64)
    ensures
        final(buf)@ == old(buf)@ + int_str(v as int),
{
    if v < 0 {
        push_char(buf, '-');
        let m: u64 = ((-(v + 1)) as u64) + 1;
        assert(m == -(v as int));
        push_dec_u64(buf, m);
        assert(buf@ =~= old(buf)@ + int_str(v as int));
    } else {
        push_dec_u64(buf, v as u64);
    }
}

/// Appends `n` as exactly two digits.
pub fn push_two_dec(buf: &mut String, n: u8)
    requires
        n < 100,
    ensures
        final(buf)@ == old(buf)@ + two_dec(n as int),
{
    push_char(buf, digit_of(n / 10));
    push_char(buf, digit_of(n % 10));
    assert(buf@ =~= old(buf)@ + two_dec(n as int));
}

/// Appends one byte as two lowercase hex digits.
pub fn push_hex2(buf: &mut String, b: u8)
    ensures
        final(buf)@ == old(buf)@ + hex2(b as int),
{
    push_char(buf, hex_digit_of(b / 16));
    push_char(buf, hex_digit_of(b % 16));
    assert(buf@ =~= old(buf)@ + hex2(b as int));
}

/// Appends a centisecond timestamp as `H:MM:SS.CC`.
pub fn push_time(buf: &mut String, cs: i64)
    ensures
        final(buf)@ == old(buf)@ + ass_time(cs as int),
{
    let t: i64 = if cs < 0 {
        0
    } else {
        cs
    };
    push_dec_u64(buf, (t / 360000) as u64);
    push_char(buf, ':');
    push_two_dec(buf, ((t / 6000) % 60) as u8);
    push_char(buf, ':');
    push_two_dec(buf, ((t / 100) % 60) as u8);
    push_char(buf, '.');
    push_two_dec(buf, (t % 100) as u8);
    assert(buf@ =~= old(buf)@ + ass_time(cs as int));
}

/// The decimal form of `n` as an owned string.
pub fn u64_to_string(n: u64) -> (r: String)
    ensures
        r@ == dec_str(n as nat),
{
    let mut buf = String::new();
    push_dec_u64(&mut buf, n);
    assert(buf@ =~= dec_str(n as nat));
    buf
}

} // verus!
