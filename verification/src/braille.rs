//! Braille Patterns strategy: 2x4 pixel cells mapped onto the Unicode
//! Braille Patterns block (U+2800..U+28FF).
//!
//! The engine packs a cell row-major (bit `i = row * 2 + col`), while the
//! Braille block numbers its dots column-major (dots 1-4 down the left
//! column, 5-8 down the right). `translate_character` therefore permutes
//! the eight bits; the glyph is the character at `0x2800` plus the
//! translated code.

use vstd::prelude::*;
use vstd::arithmetic::power2::{pow2, lemma2_to64};
use crate::strategy::ConsoleBitmap;

verus! {

/// Strategy drawing 2x4 cells with braille characters.
pub struct BraillePatterns;

/// The fixed permutation of the eight cell bits, from the engine's
/// row-major order to the braille dot order. It sends bit 0 to 0, 1 to 3,
/// 2 to 1, 3 to 4, 4 to 2, and leaves bits 5, 6 and 7 in place.
pub open spec fn braille_permute_u8(c: u8) -> u8 {
    (c & 0x01) | ((c & 0x02) << 2) | ((c & 0x04) >> 1) | ((c & 0x08) << 1) | ((c & 0x10) >> 2) | (
    c & 0x20) | (c & 0x40) | (c & 0x80)
}

/// The inverse of [`braille_permute_u8`]: it sends bit 0 to 0, 1 to 2,
/// 2 to 4, 3 to 1, 4 to 3, and leaves bits 5, 6 and 7 in place.
pub open spec fn braille_unpermute_u8(c: u8) -> u8 {
    (c & 0x01) | ((c & 0x02) << 1) | ((c & 0x04) << 2) | ((c & 0x08) >> 2) | ((c & 0x10) >> 1) | (
    c & 0x20) | (c & 0x40) | (c & 0x80)
}

/// The inverse of `BraillePatterns::spec_translate` on the 256 cell codes.
pub open spec fn spec_untranslate(code: nat) -> nat {
    if code < 256 {
        braille_unpermute_u8(code as u8) as nat
    } else {
        code
    }
}

/// The braille glyph for a translated code: the character `0x2800 + code`.
pub open spec fn braille_glyph(code: nat) -> char
    recommends
        code < 256,
{
    ((0x2800 + code) as u32) as char
}

impl ConsoleBitmap for BraillePatterns {
    open spec fn spec_cols() -> nat {
        2
    }

    open spec fn spec_rows() -> nat {
        4
    }

    open spec fn spec_translate(code: nat) -> nat {
        if code < 256 {
            braille_permute_u8(code as u8) as nat
        } else {
            code
        }
    }

    open spec fn spec_character(code: nat) -> char {
        braille_glyph(code)
    }

    proof fn geometry_positive() {
    }

    fn cols_per_character() -> (r: usize) {
        2
    }

    fn rows_per_character() -> (r: usize) {
        4
    }

    fn translate_character(v: usize) -> (r: usize) {
        proof {
            lemma2_to64();
        }
        let c = v as u8;
        let t = (c & 0x01) | ((c & 0x02) << 2) | ((c & 0x04) >> 1) | ((c & 0x08) << 1) | ((c
            & 0x10) >> 2) | (c & 0x20) | (c & 0x40) | (c & 0x80);
        t as usize
    }

    fn character(v: usize) -> (c: char) {
        proof {
            lemma2_to64();
        }
        let u: u32 = 0x2800 + (v as u32);
        let glyph = char::from_u32(u).unwrap();
        proof {
            vstd::utf8::char_u32_cast(glyph, u);
        }
        glyph
    }
}

/// Relies on `char::from_u32` of core: it returns the character with the
/// given scalar value for every value that is not a surrogate and not above
/// the highest code point, and `None` otherwise.
pub assume_specification[ char::from_u32 ](i: u32) -> (r: Option<char>)
    ensures
        r is Some <==> (i < 0xD800 || (0xE000 <= i && i <= 0x10FFFF)),
        r matches Some(c) ==> c as u32 == i,
;

/// The bit permutation is a bijection on the 256 cell codes: it stays below
/// 256 and is undone by `spec_untranslate`, so distinct pixel patterns
/// translate to distinct codes.
pub proof fn lemma_braille_translate_invertible(code: nat)
    requires
        code < 256,
    ensures
        BraillePatterns::spec_translate(code) < 256,
        spec_untranslate(BraillePatterns::spec_translate(code)) == code,
{
    let c = code as u8;
    let t = braille_permute_u8(c);
    let u = braille_unpermute_u8(t);
    assert(u == c) by (bit_vector)
        requires
            t == (c & 0x01) | ((c & 0x02) << 2) | ((c & 0x04) >> 1) | ((c & 0x08) << 1) | ((c
                & 0x10) >> 2) | (c & 0x20) | (c & 0x40) | (c & 0x80),
            u == (t & 0x01) | ((t & 0x02) << 1) | ((t & 0x04) << 2) | ((t & 0x08) >> 2) | ((t
                & 0x10) >> 1) | (t & 0x20) | (t & 0x40) | (t & 0x80),
    ;
}

/// Distinct cell codes translate to distinct codes.
pub proof fn lemma_braille_translate_injective(a: nat, b: nat)
    requires
        a < 256,
        b < 256,
        a != b,
    ensures
        BraillePatterns::spec_translate(a) != BraillePatterns::spec_translate(b),
{
    lemma_braille_translate_invertible(a);
    lemma_braille_translate_invertible(b);
}

/// A braille glyph's scalar value is `0x2800` plus its code, so the glyph
/// determines the code.
pub proof fn lemma_braille_glyph_scalar(code: nat)
    requires
        code < 256,
    ensures
        braille_glyph(code) as u32 == 0x2800 + code,
{
}

/// The whole mapping is invertible: subtracting `0x2800` from the glyph's
/// scalar value and undoing the permutation recovers the packed pixel
/// pattern; hence distinct patterns yield distinct braille characters.
pub proof fn lemma_braille_mapping_invertible(a: nat, b: nat)
    requires
        a < 256,
        b < 256,
    ensures
        spec_untranslate(
            (BraillePatterns::spec_character(BraillePatterns::spec_translate(a)) as u32
                - 0x2800) as nat,
        ) == a,
        a != b ==> BraillePatterns::spec_character(BraillePatterns::spec_translate(a))
            != BraillePatterns::spec_character(BraillePatterns::spec_translate(b)),
{
    lemma_braille_translate_invertible(a);
    lemma_braille_translate_invertible(b);
    lemma_braille_glyph_scalar(BraillePatterns::spec_translate(a));
    lemma_braille_glyph_scalar(BraillePatterns::spec_translate(b));
}

/// The blank cell: the permutation maps 0 to 0 and the glyph of 0 is the
/// blank braille character U+2800.
pub proof fn lemma_braille_blank()
    ensures
        BraillePatterns::spec_translate(0) == 0,
        BraillePatterns::spec_character(0) == '\u{2800}',
{
    let c = 0u8;
    assert(((c & 0x01) | ((c & 0x02) << 2) | ((c & 0x04) >> 1) | ((c & 0x08) << 1) | ((c & 0x10)
        >> 2) | (c & 0x20) | (c & 0x40) | (c & 0x80)) == 0u8) by (bit_vector)
        requires
            c == 0u8,
    ;
}

} // verus!
