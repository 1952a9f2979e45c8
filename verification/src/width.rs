//! Text width estimation for mixed scripts.
//!
//! Every character is classified as full-width (East-Asian-wide code points)
//! or half-width (everything else).  A character's width is measured in
//! "cells": sixtieths of the font's em square.  A full-width character spans
//! a whole em (60 cells); half-width characters span roughly 0.65 em, with
//! the exact cell count calibrated per character class against a reference
//! renderer.  The width of a string is the sum of its characters' cells;
//! pixel widths are derived from cells elsewhere, so that estimation stays
//! exact integer arithmetic.

use vstd::prelude::*;

verus! {

/// Cells (sixtieths of an em) spanned by a full-width character.
pub const FULL_CELLS: u64 = 60;

/// Whether a character is displayed full-width: CJK ideographs, kana,
/// hangul, fullwidth forms and similar East-Asian-wide code point ranges.
pub open spec fn is_fullwidth(c: char) -> bool {
    let u = c as u32;
    (0x1100 <= u && u <= 0x115F)  // Hangul Jamo
    || (0x2E80 <= u && u <= 0x303E)  // CJK radicals .. CJK symbols and punctuation
    || (0x3041 <= u && u <= 0x33FF)  // Hiragana .. CJK compatibility
    || (0x3400 <= u && u <= 0x4DBF)  // CJK unified ideographs extension A
    || (0x4E00 <= u && u <= 0x9FFF)  // CJK unified ideographs
    || (0xA000 <= u && u <= 0xA4CF)  // Yi
    || (0xAC00 <= u && u <= 0xD7A3)  // Hangul syllables
    || (0xF900 <= u && u <= 0xFAFF)  // CJK compatibility ideographs
    || (0xFE30 <= u && u <= 0xFE4F)  // CJK compatibility forms
    || (0xFF00 <= u && u <= 0xFF60)  // Fullwidth forms
    || (0xFFE0 <= u && u <= 0xFFE6)  // Fullwidth signs
    || (0x20000 <= u && u <= 0x2FFFD)  // CJK extension planes
    || (0x30000 <= u && u <= 0x3FFFD)
}

/// Estimated width of one character, in cells.
///
/// Half-width characters take close to 0.65 em: alphanumerics and the colon
/// measure slightly wide (40 cells), parentheses slightly narrow (38), and
/// everything else 39 cells, matching a reference renderer's metrics.
pub open spec fn char_cells(c: char) -> int {
    let u = c as u32;
    if is_fullwidth(c) {
        60
    } else if (0x30 <= u && u <= 0x39) || (0x41 <= u && u <= 0x5A) || (0x61 <= u && u <= 0x7A)
        || u == 0x3A {
        40
    } else if u == 0x28 || u == 0x29 {
        38
    } else {
        39
    }
}

/// Estimated width of a string, in cells: the sum of its characters' cells.
pub open spec fn text_cells(s: Seq<char>) -> int
    decreases s.len(),
{
    if s.len() == 0 {
        0
    } else {
        text_cells(s.drop_last()) + char_cells(s.last())
    }
}

pub proof fn lemma_text_cells_bounds(s: Seq<char>)
    ensures
        38 * s.len() <= text_cells(s) <= 60 * s.len(),
    decreases s.len(),
{
    if s.len() > 0 {
        lemma_text_cells_bounds(s.drop_last());
    }
}

/// Splitting a string splits its width: cells are additive over concatenation.
pub proof fn lemma_text_cells_concat(a: Seq<char>, b: Seq<char>)
    ensures
        text_cells(a + b) == text_cells(a) + text_cells(b),
    decreases b.len(),
{
    if b.len() == 0 {
        assert(a + b =~= a);
    } else {
        lemma_text_cells_concat(a, b.drop_last());
        assert((a + b).drop_last() =~= a + b.drop_last());
        assert((a + b).last() == b.last());
    }
}

/// Width monotonicity: appending full-width characters to a string strictly
/// increases its estimated width.
pub proof fn lemma_width_monotonic(s: Seq<char>, tail: Seq<char>)
    requires
        tail.len() > 0,
        forall|i: int| 0 <= i < tail.len() ==> is_fullwidth(#[trigger] tail[i]),
    ensures
        text_cells(s + tail) > text_cells(s),
{
    lemma_text_cells_concat(s, tail);
    lemma_text_cells_bounds(tail);
    assert(char_cells(tail[0]) == 60);
}

/// Width monotonicity carried to pixel scale: multiplying by a positive font
/// size and width ratio keeps the strict increase.
pub proof fn lemma_width_monotonic_scaled(s: Seq<char>, tail: Seq<char>, font_size: int, ratio_milli: int)
    requires
        tail.len() > 0,
        forall|i: int| 0 <= i < tail.len() ==> is_fullwidth(#[trigger] tail[i]),
        font_size >= 1,
        ratio_milli >= 1,
    ensures
        text_cells(s + tail) * font_size * ratio_milli > text_cells(s) * font_size * ratio_milli,
{
    lemma_width_monotonic(s, tail);
    let a = text_cells(s + tail);
    let b = text_cells(s);
    assert(a * font_size * ratio_milli > b * font_size * ratio_milli) by (nonlinear_arith)
        requires
            a > b,
            font_size >= 1,
            ratio_milli >= 1,
    ;
}

pub fn is_fullwidth_char(c: char) -> (r: bool)
    ensures
        r == is_fullwidth(c),
{
    let u = c as u32;
    (0x1100 <= u && u <= 0x115F) || (0x2E80 <= u && u <= 0x303E) || (0x3041 <= u && u <= 0x33FF)
        || (0x3400 <= u && u <= 0x4DBF) || (0x4E00 <= u && u <= 0x9FFF) || (0xA000 <= u && u
        <= 0xA4CF) || (0xAC00 <= u && u <= 0xD7A3) || (0xF900 <= u && u <= 0xFAFF) || (0xFE30 <= u
        && u <= 0xFE4F) || (0xFF00 <= u && u <= 0xFF60) || (0xFFE0 <= u && u <= 0xFFE6) || (0x20000
        <= u && u <= 0x2FFFD) || (0x30000 <= u && u <= 0x3FFFD)
}

pub fn char_cells_of(c: char) -> (r: u8)
    ensures
        r == char_cells(c),
{
    let u = c as u32;
    if is_fullwidth_char(c) {
        60
    } else if (0x30 <= u && u <= 0x39) || (0x41 <= u && u <= 0x5A) || (0x61 <= u && u <= 0x7A) || u
        == 0x3A {
        40
    } else if u == 0x28 || u == 0x29 {
        38
    } else {
        39
    }
}

/// Estimated width of a string in cells.
pub fn measure_cells(text: &Vec<char>) -> (r: u64)
    requires
        text@.len() <= 100_000_000,
    ensures
        r == text_cells(text@),
        r <= 60 * text@.len(),
{
    let n = text.len();
    let mut total: u64 = 0;
    for i in 0..n
        invariant
            n == text@.len(),
            n <= 100_000_000,
            total == text_cells(text@.take(i as int)),
            total <= 60 * i,
    {
        total = total + char_cells_of(text[i]) as u64;
        assert(text@.take(i as int + 1).drop_last() =~= text@.take(i as int));
        assert(text@.take(i as int + 1).last() == text@[i as int]);
    }
    assert(text@.take(n as int) =~= text@);
    total
}

} // verus!
