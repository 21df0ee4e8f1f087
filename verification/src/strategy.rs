//! The capability contract of one character set: cell geometry, an optional
//! bit reordering, and the mapping from packed pixel codes to glyphs.

use vstd::prelude::*;
use vstd::arithmetic::power2::pow2;

verus! {

/// One character set's pixel-cell geometry and code-to-glyph mapping.
///
/// A cell of `spec_rows() x spec_cols()` pixels is packed row-major into a
/// code below `pow2(spec_cols() * spec_rows())`; `translate_character`
/// reorders the bits where the character set numbers them differently, and
/// `character` renders the translated code as one glyph.
pub trait ConsoleBitmap {
    /// Cell width in pixels.
    spec fn spec_cols() -> nat;

    /// Cell height in pixels.
    spec fn spec_rows() -> nat;

    /// The bit reordering applied to a packed code before glyph lookup.
    spec fn spec_translate(code: nat) -> nat;

    /// The glyph chosen for a translated code.
    spec fn spec_character(code: nat) -> char;

    /// Every valid strategy has positive cell dimensions.
    proof fn geometry_positive()
        ensures
            Self::spec_cols() >= 1,
            Self::spec_rows() >= 1,
    ;

    fn cols_per_character() -> (r: usize)
        ensures
            r as nat == Self::spec_cols(),
    ;

    fn rows_per_character() -> (r: usize)
        ensures
            r as nat == Self::spec_rows(),
    ;

    fn translate_character(v: usize) -> (r: usize)
        requires
            (v as nat) < pow2(Self::spec_cols() * Self::spec_rows()),
        ensures
            r as nat == Self::spec_translate(v as nat),
            (r as nat) < pow2(Self::spec_cols() * Self::spec_rows()),
    ;

    fn character(v: usize) -> (c: char)
        requires
            (v as nat) < pow2(Self::spec_cols() * Self::spec_rows()),
        ensures
            c == Self::spec_character(v as nat),
    ;
}

} // verus!
