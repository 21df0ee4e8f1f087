//! Block Elements strategy: 2x2 pixel cells mapped onto the Unicode quadrant
//! block characters, one of 16 glyphs per cell.

use vstd::prelude::*;
use crate::bits::{pack_bits, lemma_pack_bits_skip};
use crate::engine::{bit_at, cell_bits, cell_code};
use crate::strategy::ConsoleBitmap;

verus! {

/// Strategy drawing 2x2 cells with quadrant block characters.
///
/// Code bit 0 is the top-left pixel, bit 1 top-right, bit 2 bottom-left,
/// bit 3 bottom-right; no bit reordering is needed.
pub struct BlockElements;

/// The quadrant glyph for each of the 16 cell codes; code 0 is a space,
/// code 15 the full block.
pub open spec fn block_glyph(code: nat) -> char {
    if code == 0 {
        ' '
    } else if code == 1 {
        '\u{2598}'
    } else if code == 2 {
        '\u{259D}'
    } else if code == 3 {
        '\u{2580}'
    } else if code == 4 {
        '\u{2596}'
    } else if code == 5 {
        '\u{258C}'
    } else if code == 6 {
        '\u{259E}'
    } else if code == 7 {
        '\u{259B}'
    } else if code == 8 {
        '\u{2597}'
    } else if code == 9 {
        '\u{259A}'
    } else if code == 10 {
        '\u{2590}'
    } else if code == 11 {
        '\u{259C}'
    } else if code == 12 {
        '\u{2584}'
    } else if code == 13 {
        '\u{2599}'
    } else if code == 14 {
        '\u{259F}'
    } else {
        '\u{2588}'
    }
}

impl ConsoleBitmap for BlockElements {
    open spec fn spec_cols() -> nat {
        2
    }

    open spec fn spec_rows() -> nat {
        2
    }

    /// Block Elements use the engine's natural bit order unchanged.
    open spec fn spec_translate(code: nat) -> nat {
        code
    }

    open spec fn spec_character(code: nat) -> char {
        block_glyph(code)
    }

    proof fn geometry_positive() {
    }

    fn cols_per_character() -> (r: usize) {
        2
    }

    fn rows_per_character() -> (r: usize) {
        2
    }

    fn translate_character(v: usize) -> (r: usize) {
        v
    }

    fn character(v: usize) -> (c: char) {
        if v == 0 {
            ' '
        } else if v == 1 {
            '\u{2598}'
        } else if v == 2 {
            '\u{259D}'
        } else if v == 3 {
            '\u{2580}'
        } else if v == 4 {
            '\u{2596}'
        } else if v == 5 {
            '\u{258C}'
        } else if v == 6 {
            '\u{259E}'
        } else if v == 7 {
            '\u{259B}'
        } else if v == 8 {
            '\u{2597}'
        } else if v == 9 {
            '\u{259A}'
        } else if v == 10 {
            '\u{2590}'
        } else if v == 11 {
            '\u{259C}'
        } else if v == 12 {
            '\u{2584}'
        } else if v == 13 {
            '\u{2599}'
        } else if v == 14 {
            '\u{259F}'
        } else {
            '\u{2588}'
        }
    }
}

/// The 16-entry glyph table is a bijection: distinct codes render as
/// distinct characters.
pub proof fn lemma_block_glyphs_distinct(a: nat, b: nat)
    requires
        a < 16,
        b < 16,
        a != b,
    ensures
        block_glyph(a) != block_glyph(b),
{
}

/// The blank cell: Block Elements translate 0 to 0 and render it as a space.
pub proof fn lemma_block_blank()
    ensures
        BlockElements::spec_translate(0) == 0,
        BlockElements::spec_character(0) == ' ',
{
}

/// The full cell: a 2x2 cell whose four pixels are all set packs to code
/// 15, which stays 15 under translation and renders as the full block.
pub proof fn lemma_block_full_cell(band: Seq<Seq<bool>>, j: int)
    requires
        band.len() == 2,
        bit_at(band[0], j),
        bit_at(band[0], j + 1),
        bit_at(band[1], j),
        bit_at(band[1], j + 1),
    ensures
        cell_code(band, j, BlockElements::spec_cols()) == 15,
        BlockElements::spec_character(BlockElements::spec_translate(15)) == '\u{2588}',
{
    let cb = cell_bits(band, j, 2);
    assert(cb.len() == 4);
    assert(cb[0] == bit_at(band[0], j));
    assert(cb[1] == bit_at(band[0], j + 1));
    assert(cb[2] == bit_at(band[1], j));
    assert(cb[3] == bit_at(band[1], j + 1));
    assert(pack_bits(cb.skip(4)) == 0);
    lemma_pack_bits_skip(cb, 3);
    lemma_pack_bits_skip(cb, 2);
    lemma_pack_bits_skip(cb, 1);
    lemma_pack_bits_skip(cb, 0);
    assert(cb.skip(0) =~= cb);
}

} // verus!
