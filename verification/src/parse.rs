//! Parsing of raw comment records.
//!
//! A record's position field is a comma-separated list: timestamp in
//! seconds (a plain decimal, possibly fractional), display-mode code, color
//! as a decimal integer, and sender id.  Each malformed record is a hard
//! error for the whole conversion.

use vstd::prelude::*;

use crate::danmu::DanmuType;
use crate::text::str_chars;

verus! {

/// Why a comment record was rejected.
#[derive(Clone, Copy, Debug, PartialEq, Eq, Structural)]
pub enum ParseError {
    /// Fewer than four comma-separated fields.
    Fields,
    /// The timestamp is not a plain nonnegative decimal, or out of range.
    Timestamp,
    /// The color is not a decimal integer in the signed 32-bit range.
    Color,
    /// The display-mode code is not a decimal byte.
    Mode,
    /// The display-mode code names no known category.
    UnsupportedMode(u8),
}

pub open spec fn is_digit(c: char) -> bool {
    0x30 <= (c as u32) && (c as u32) <= 0x39
}

pub open spec fn digit_val(c: char) -> int {
    (c as u32) - 0x30
}

pub open spec fn all_digits(s: Seq<char>) -> bool {
    forall|i: int| 0 <= i < s.len() ==> is_digit(#[trigger] s[i])
}

/// The value of a string of decimal digits, most significant first.
pub open spec fn digits_val(s: Seq<char>) -> int
    decreases s.len(),
{
    if s.len() == 0 {
        0
    } else {
        digits_val(s.drop_last()) * 10 + digit_val(s.last())
    }
}

/// The first position at or after `i` holding character `c`, or the length.
pub open spec fn first_at(s: Seq<char>, c: char, i: int) -> int
    decreases s.len() - i,
{
    if i < 0 || i >= s.len() {
        s.len() as int
    } else if s[i] == c {
        i
    } else {
        first_at(s, c, i + 1)
    }
}

/// The largest timestamp value accepted, in whole seconds.
pub const MAX_TIMESTAMP_SECONDS: u64 = 9_999_999_999;

/// A well-formed timestamp: digits with at most one point, not empty, and
/// whole seconds within range.
pub open spec fn valid_timestamp(s: Seq<char>) -> bool {
    let dot = first_at(s, '.', 0);
    let int_part = s.take(dot);
    let frac = if dot < s.len() {
        s.skip(dot + 1)
    } else {
        Seq::<char>::empty()
    };
    &&& int_part.len() + frac.len() >= 1
    &&& all_digits(int_part)
    &&& all_digits(frac)
    &&& digits_val(int_part) <= MAX_TIMESTAMP_SECONDS
}

/// The timestamp in centiseconds: whole seconds, plus up to two fractional
/// digits; further digits are truncated.
pub open spec fn timestamp_cs(s: Seq<char>) -> int {
    let dot = first_at(s, '.', 0);
    let int_part = s.take(dot);
    let frac = if dot < s.len() {
        s.skip(dot + 1)
    } else {
        Seq::<char>::empty()
    };
    let frac_cs: int = if frac.len() == 0 {
        0
    } else if frac.len() == 1 {
        digit_val(frac[0]) * 10
    } else {
        digit_val(frac[0]) * 10 + digit_val(frac[1])
    };
    digits_val(int_part) * 100 + frac_cs
}

/// A well-formed color: a decimal integer within the signed 32-bit range.
pub open spec fn valid_color(s: Seq<char>) -> bool {
    &&& s.len() >= 1
    &&& all_digits(s)
    &&& digits_val(s) <= 0x7FFF_FFFF
}

/// The red, green and blue components of a color value.
pub open spec fn color_of(s: Seq<char>) -> (u8, u8, u8) {
    let v = digits_val(s);
    ((((v / 65536) % 256) as u8), (((v / 256) % 256) as u8), ((v % 256) as u8))
}

/// A well-formed display-mode code: a decimal byte.
pub open spec fn valid_mode(s: Seq<char>) -> bool {
    &&& s.len() >= 1
    &&& all_digits(s)
    &&& digits_val(s) <= 255
}

/// The display category of a mode code, where one is defined.
pub open spec fn mode_of(v: int) -> Option<DanmuType> {
    if v == 1 {
        Some(DanmuType::Float)
    } else if v == 4 {
        Some(DanmuType::Bottom)
    } else if v == 5 {
        Some(DanmuType::Top)
    } else {
        None
    }
}

/// A parsed position field: arrival time, display category, color.
#[derive(Debug)]
pub struct Position {
    pub timestamp_cs: i64,
    pub mode: DanmuType,
    pub color: (u8, u8, u8),
}

/// The mathematical image of a [`Position`].
#[verifier::ext_equal]
pub ghost struct PositionModel {
    pub timestamp_cs: int,
    pub mode: DanmuType,
    pub color: (u8, u8, u8),
}

impl View for Position {
    type V = PositionModel;

    open spec fn view(&self) -> PositionModel {
        PositionModel {
            timestamp_cs: self.timestamp_cs as int,
            mode: self.mode,
            color: self.color,
        }
    }
}

/// What parsing a whole position field yields: the record must have at
/// least four fields; then the color, the timestamp and the mode are
/// checked in that order, and the first offender names the error.
pub open spec fn spec_parse_position(s: Seq<char>) -> Result<PositionModel, ParseError> {
    let c1 = first_at(s, ',', 0);
    let c2 = first_at(s, ',', c1 + 1);
    let c3 = first_at(s, ',', c2 + 1);
    if c3 >= s.len() {
        Err(ParseError::Fields)
    } else {
        let ts = s.take(c1);
        let mode = s.subrange(c1 + 1, c2);
        let color = s.subrange(c2 + 1, c3);
        if !valid_color(color) {
            Err(ParseError::Color)
        } else if !valid_timestamp(ts) {
            Err(ParseError::Timestamp)
        } else if !valid_mode(mode) {
            Err(ParseError::Mode)
        } else {
            match mode_of(digits_val(mode)) {
                Some(kind) => Ok(
                    PositionModel {
                        timestamp_cs: timestamp_cs(ts),
                        mode: kind,
                        color: color_of(color),
                    },
                ),
                None => Err(ParseError::UnsupportedMode(digits_val(mode) as u8)),
            }
        }
    }
}

/// Every digit string's value is nonnegative.
pub proof fn lemma_digits_val_nonneg(s: Seq<char>)
    requires
        all_digits(s),
    ensures
        digits_val(s) >= 0,
    decreases s.len(),
{
    if s.len() > 0 {
        assert(all_digits(s.drop_last())) by {
            assert(forall|i: int|
                0 <= i < s.len() - 1 ==> s.drop_last()[i] == #[trigger] s[i]);
        }
        lemma_digits_val_nonneg(s.drop_last());
    }
}

/// A digit string's value only grows as digits are appended.
pub proof fn lemma_digits_val_prefix_le(s: Seq<char>, i: int)
    requires
        all_digits(s),
        0 <= i <= s.len(),
    ensures
        digits_val(s.take(i)) <= digits_val(s),
    decreases s.len() - i,
{
    if i < s.len() {
        assert(all_digits(s.take(i))) by {
            assert(forall|q: int| 0 <= q < i ==> s.take(i)[q] == #[trigger] s[q]);
        }
        lemma_digits_val_nonneg(s.take(i));
        assert(s.take(i + 1).drop_last() =~= s.take(i));
        assert(s.take(i + 1).last() == s[i]);
        assert(digits_val(s.take(i)) <= digits_val(s.take(i + 1)));
        lemma_digits_val_prefix_le(s, i + 1);
        assert(s.take(s.len() as int) =~= s);
    } else {
        assert(s.take(i) =~= s);
    }
}

/// Copies one field out of a character vector.
fn vec_range(v: &Vec<char>, from: usize, to: usize) -> (r: Vec<char>)
    requires
        from <= to <= v@.len(),
    ensures
        r@ == v@.subrange(from as int, to as int),
{
    let mut r: Vec<char> = Vec::new();
    let mut i = from;
    while i < to
        invariant
            from <= i <= to <= v@.len(),
            r@ =~= v@.subrange(from as int, i as int),
        decreases to - i,
    {
        r.push(v[i]);
        assert(r@ =~= v@.subrange(from as int, i as int + 1));
        i = i + 1;
    }
    r
}

/// The first position at or after `from` holding `c`, or the length.
fn find_char(v: &Vec<char>, c: char, from: usize) -> (r: usize)
    requires
        from <= v@.len(),
    ensures
        r == first_at(v@, c, from as int),
        from <= r <= v@.len(),
{
    let n = v.len();
    let mut i = from;
    while i < n
        invariant
            from <= i <= n,
            n == v@.len(),
            first_at(v@, c, from as int) == first_at(v@, c, i as int),
        decreases n - i,
    {
        if v[i] == c {
            return i;
        }
        i = i + 1;
    }
    n
}

/// Reads a decimal value, rejecting non-digits and values over `limit`.
fn parse_digits(v: &Vec<char>, from: usize, to: usize, limit: u64) -> (r: Option<u64>)
    requires
        from <= to <= v@.len(),
        limit <= 10_000_000_000,
    ensures
        ({
            let sub = v@.subrange(from as int, to as int);
            match r {
                Some(val) => all_digits(sub) && val == digits_val(sub) && val <= limit,
                None => !all_digits(sub) || digits_val(sub) > limit,
            }
        }),
{
    let ghost sub = v@.subrange(from as int, to as int);
    let mut acc: u64 = 0;
    let mut i = from;
    while i < to
        invariant
            from <= i <= to <= v@.len(),
            limit <= 10_000_000_000,
            sub == v@.subrange(from as int, to as int),
            all_digits(sub.take(i - from)),
            acc == digits_val(sub.take(i - from)),
            acc <= limit,
        decreases to - i,
    {
        let c = v[i];
        let u = c as u32;
        if !(0x30 <= u && u <= 0x39) {
            assert(sub[i - from] == c);
            assert(!all_digits(sub));
            return None;
        }
        let d = (u - 0x30) as u64;
        let next = acc * 10 + d;
        proof {
            assert(sub.take(i - from + 1).drop_last() =~= sub.take(i - from));
            assert(sub.take(i - from + 1).last() == sub[i - from]);
        }
        if next > limit {
            proof {
                if all_digits(sub) {
                    lemma_digits_val_prefix_le(sub, i - from + 1);
                }
            }
            return None;
        }
        acc = next;
        i = i + 1;
    }
    assert(sub.take(to - from) =~= sub);
    Some(acc)
}

/// Reads a timestamp field into centiseconds.
#[verifier::loop_isolation(false)]
fn parse_timestamp_vec(v: &Vec<char>) -> (r: Option<i64>)
    ensures
        match r {
            Some(t) => valid_timestamp(v@) && t == timestamp_cs(v@) && 0 <= t
                <= 1_000_000_000_099,
            None => !valid_timestamp(v@),
        },
{
    let n = v.len();
    let dot = find_char(v, '.', 0);
    let flen: usize = if dot < n {
        n - dot - 1
    } else {
        0
    };
    if dot == 0 && flen == 0 {
        return None;
    }
    proof {
        assert(v@.subrange(0, dot as int) =~= v@.take(dot as int));
    }
    let secs = match parse_digits(v, 0, dot, MAX_TIMESTAMP_SECONDS) {
        Some(s) => s,
        None => {
            return None;
        },
    };
    let mut frac_cs: u64 = 0;
    if dot < n {
        proof {
            assert(v@.subrange(dot + 1, n as int) =~= v@.skip(dot + 1));
        }
        match parse_digits(v, dot + 1, n, 10_000_000_000) {
            Some(_) => {},
            None => {
                // a fractional part this long cannot be all digits within
                // range; check digit-ness alone
                let mut j = dot + 1;
                while j < n
                    invariant
                        dot + 1 <= j <= n,
                        n == v@.len(),
                        all_digits(v@.subrange(dot + 1, n as int).take(j - dot - 1)),
                    decreases n - j,
                {
                    let c = v[j];
                    let u = c as u32;
                    if !(0x30 <= u && u <= 0x39) {
                        assert(v@.subrange(dot + 1, n as int)[j - dot - 1] == c);
                        assert(!all_digits(v@.skip(dot + 1)));
                        return None;
                    }
                    proof {
                        let fr = v@.subrange(dot + 1, n as int);
                        assert(fr.take(j - dot - 1 + 1).drop_last() =~= fr.take(j - dot - 1));
                        assert(fr.take(j - dot - 1 + 1).last() == fr[j - dot - 1]);
                    }
                    j = j + 1;
                }
                proof {
                    let fr = v@.subrange(dot + 1, n as int);
                    assert(fr.take(n - dot - 1) =~= fr);
                }
            },
        }
        assert(all_digits(v@.skip(dot + 1)));
        if flen >= 1 {
            assert(v@.skip(dot + 1)[0] == v@[dot + 1]);
            assert(is_digit(v@[dot + 1]));
            let d0 = (v[dot + 1] as u32 - 0x30) as u64;
            frac_cs = d0 * 10;
        }
        if flen >= 2 {
            assert(v@.skip(dot + 1)[1] == v@[dot + 2]);
            assert(is_digit(v@[dot + 2]));
            let d1 = (v[dot + 2] as u32 - 0x30) as u64;
            frac_cs = frac_cs + d1;
        }
    }
    let t = secs * 100 + frac_cs;
    Some(t as i64)
}

impl Position {
    /// Reads a display-mode field.  `1` scrolls, `4` pins to the bottom,
    /// `5` pins to the top; any other byte value is unsupported.
    pub fn parse_mode(mode: &str) -> (r: Result<DanmuType, ParseError>)
        ensures
            match r {
                Ok(kind) => valid_mode(mode@) && mode_of(digits_val(mode@)) == Some(kind),
                Err(ParseError::Mode) => !valid_mode(mode@),
                Err(ParseError::UnsupportedMode(v)) => valid_mode(mode@) && mode_of(
                    digits_val(mode@),
                ) is None && v == digits_val(mode@),
                Err(_) => false,
            },
    {
        let chars = str_chars(mode);
        let n = chars.len();
        if n == 0 {
            return Err(ParseError::Mode);
        }
        proof {
            assert(chars@.subrange(0, n as int) =~= chars@);
        }
        match parse_digits(&chars, 0, n, 255) {
            None => Err(ParseError::Mode),
            Some(1) => Ok(DanmuType::Float),
            Some(4) => Ok(DanmuType::Bottom),
            Some(5) => Ok(DanmuType::Top),
            Some(v) => Err(ParseError::UnsupportedMode(v as u8)),
        }
    }

    /// Reads a color field: a decimal integer whose low three bytes are the
    /// blue, green and red components.
    pub fn parse_color(color: &str) -> (r: Result<(u8, u8, u8), ParseError>)
        ensures
            match r {
                Ok(rgb) => valid_color(color@) && rgb == color_of(color@),
                Err(ParseError::Color) => !valid_color(color@),
                Err(_) => false,
            },
    {
        let chars = str_chars(color);
        let n = chars.len();
        if n == 0 {
            return Err(ParseError::Color);
        }
        proof {
            assert(chars@.subrange(0, n as int) =~= chars@);
        }
        match parse_digits(&chars, 0, n, 0x7FFF_FFFF) {
            None => Err(ParseError::Color),
            Some(v) => Ok((((v / 65536) % 256) as u8, ((v / 256) % 256) as u8, (v % 256) as u8)),
        }
    }

    /// Reads a whole position field: at least four comma-separated fields,
    /// of which the first three are timestamp, mode and color.
    pub fn parse(s: &str) -> (r: Result<Position, ParseError>)
        ensures
            match (r, spec_parse_position(s@)) {
                (Ok(p), Ok(m)) => p@ == m && 0 <= p.timestamp_cs <= 1_000_000_000_099,
                (Err(e), Err(e2)) => e == e2,
                _ => false,
            },
    {
        let chars = str_chars(s);
        let n = chars.len();
        let c1 = find_char(&chars, ',', 0);
        let c2 = if c1 < n {
            find_char(&chars, ',', c1 + 1)
        } else {
            n
        };
        let c3 = if c2 < n {
            find_char(&chars, ',', c2 + 1)
        } else {
            n
        };
        proof {
            if c1 >= n {
                assert(first_at(chars@, ',', c1 + 1) == n);
            }
            if c2 >= n {
                assert(first_at(chars@, ',', c2 + 1) == n);
            }
        }
        if c3 >= n {
            return Err(ParseError::Fields);
        }
        let ts_field = vec_range(&chars, 0, c1);
        let mode_field = vec_range(&chars, c1 + 1, c2);
        let color_field = vec_range(&chars, c2 + 1, c3);
        proof {
            assert(ts_field@ =~= chars@.take(c1 as int));
            assert(mode_field@.subrange(0, mode_field@.len() as int) =~= mode_field@);
            assert(color_field@.subrange(0, color_field@.len() as int) =~= color_field@);
        }
        let rgb = match parse_digits(&color_field, 0, color_field.len(), 0x7FFF_FFFF) {
            None => {
                return Err(ParseError::Color);
            },
            Some(v) => {
                if color_field.len() == 0 {
                    return Err(ParseError::Color);
                }
                (((v / 65536) % 256) as u8, ((v / 256) % 256) as u8, (v % 256) as u8)
            },
        };
        let t = match parse_timestamp_vec(&ts_field) {
            None => {
                return Err(ParseError::Timestamp);
            },
            Some(t) => t,
        };
        let kind = match parse_digits(&mode_field, 0, mode_field.len(), 255) {
            None => {
                return Err(ParseError::Mode);
            },
            Some(v) => {
                if mode_field.len() == 0 {
                    return Err(ParseError::Mode);
                }
                match v {
                    1 => DanmuType::Float,
                    4 => DanmuType::Bottom,
                    5 => DanmuType::Top,
                    _ => {
                        return Err(ParseError::UnsupportedMode(v as u8));
                    },
                }
            },
        };
        Ok(Position { timestamp_cs: t, mode: kind, color: rgb })
    }
}

} // verus!
