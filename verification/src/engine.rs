//! The packing engine: partitions a bitmap into cells of a strategy's
//! geometry, packs each cell's pixels into a code, and renders each code as
//! one character through the strategy.

use vstd::prelude::*;
use vstd::arithmetic::power2::{pow2, lemma_pow2_unfold, lemma_pow2_strictly_increases};
use vstd::arithmetic::div_mod::{lemma_fundamental_div_mod, lemma_mod_bound};
use vstd::arithmetic::mul::lemma_mul_inequality;
use crate::bits::{pack_bits, lemma_pack_bits_bound, lemma_pack_bits_skip, lemma_pack_bits_zero};
use crate::strategy::ConsoleBitmap;

verus! {

/// The pixel at column `c` of one row; positions outside the stored row are
/// unset.
pub open spec fn bit_at(row: Seq<bool>, c: int) -> bool {
    0 <= c < row.len() && row[c]
}

/// The pixels of the column block starting at column `j` of a band, in
/// row-major packing order: bit `t` is the pixel at column `j + t % cols`
/// of line `t / cols`.
pub open spec fn cell_bits(band: Seq<Seq<bool>>, j: int, cols: nat) -> Seq<bool>
    recommends
        cols >= 1,
{
    Seq::new(
        band.len() * cols,
        |t: int| bit_at(band[t / (cols as int)], j + t % (cols as int)),
    )
}

/// The packed code of the column block starting at column `j` of a band.
pub open spec fn cell_code(band: Seq<Seq<bool>>, j: int, cols: nat) -> nat {
    pack_bits(cell_bits(band, j, cols))
}

/// A band's pixel width: the length of its first row.
pub open spec fn band_width(band: Seq<Seq<bool>>) -> nat {
    if band.len() == 0 {
        0
    } else {
        band[0].len()
    }
}

/// `x / d` rounded up.
pub open spec fn ceil_div(x: nat, d: nat) -> nat
    recommends
        d >= 1,
{
    x / d + if x % d == 0 {
        0nat
    } else {
        1nat
    }
}

/// Rows `b * rows` up to `(b + 1) * rows` (exclusive, clamped to the row
/// count) of the bitmap: the rows that contribute to band `b`.
pub open spec fn band_of(bitmap: Seq<Seq<bool>>, b: int, rows: nat) -> Seq<Seq<bool>> {
    bitmap.subrange(
        b * (rows as int),
        if (b + 1) * (rows as int) <= bitmap.len() {
            (b + 1) * (rows as int)
        } else {
            bitmap.len() as int
        },
    )
}

/// The characters of one band: one per column block across the band's
/// width, each the strategy's glyph of the translated packed cell code.
pub open spec fn band_chars<S: ConsoleBitmap>(band: Seq<Seq<bool>>) -> Seq<char> {
    Seq::new(
        ceil_div(band_width(band), S::spec_cols()),
        |k: int|
            S::spec_character(
                S::spec_translate(cell_code(band, k * (S::spec_cols() as int), S::spec_cols())),
            ),
    )
}

/// The full rendering: one string per band of `spec_rows()` bitmap rows,
/// the last band possibly shorter.
pub open spec fn spec_draw<S: ConsoleBitmap>(bitmap: Seq<Seq<bool>>) -> Seq<Seq<char>> {
    Seq::new(
        ceil_div(bitmap.len(), S::spec_rows()),
        |b: int| band_chars::<S>(band_of(bitmap, b, S::spec_rows())),
    )
}

/// A flat cell-bit index below `lines * cols` names a line below `lines`
/// and a column offset below `cols`.
proof fn lemma_flat_index(t: int, lines: int, cols: int)
    requires
        cols >= 1,
        0 <= t < lines * cols,
    ensures
        0 <= t / cols < lines,
        0 <= t % cols < cols,
{
    lemma_fundamental_div_mod(t, cols);
    lemma_mod_bound(t, cols);
    if t / cols < 0 {
        assert(cols * (t / cols) <= -cols) by (nonlinear_arith)
            requires
                cols >= 1,
                t / cols <= -1,
        ;
    }
    if t / cols >= lines {
        assert(cols * (t / cols) >= cols * lines) by (nonlinear_arith)
            requires
                cols >= 1,
                t / cols >= lines,
        ;
        assert(cols * lines == lines * cols) by (nonlinear_arith);
    }
}

/// Zero items fill zero blocks.
proof fn lemma_ceil_div_zero(d: nat)
    requires
        d >= 1,
    ensures
        ceil_div(0, d) == 0,
{
    lemma_fundamental_div_mod(0, d as int);
    lemma_mod_bound(0, d as int);
    assert(0int / (d as int) == 0) by (nonlinear_arith)
        requires
            d >= 1,
    ;
    assert(0int % (d as int) == 0) by (nonlinear_arith)
        requires
            d >= 1,
    ;
}

/// The ceiling quotient of a positive width is at most the width.
proof fn lemma_ceil_div_le(x: nat, d: nat)
    requires
        d >= 1,
    ensures
        ceil_div(x, d) <= x,
{
    lemma_fundamental_div_mod(x as int, d as int);
    lemma_mod_bound(x as int, d as int);
    vstd::arithmetic::div_mod::lemma_div_pos_is_pos(x as int, d as int);
    let q = (x as int) / (d as int);
    let r = (x as int) % (d as int);
    if r == 0 {
        assert(q <= (d as int) * q) by (nonlinear_arith)
            requires
                d >= 1,
                q >= 0,
        ;
    } else {
        assert(q + 1 <= (d as int) * q + r) by (nonlinear_arith)
            requires
                d >= 1,
                q >= 0,
                r >= 1,
        ;
    }
}

/// Any block index below the ceiling quotient starts strictly inside the
/// width.
proof fn lemma_ceil_div_lower(x: nat, d: nat, q: nat)
    requires
        d >= 1,
        q < ceil_div(x, d),
    ensures
        q * d < x,
{
    lemma_fundamental_div_mod(x as int, d as int);
    lemma_mod_bound(x as int, d as int);
    let qd = (x / d) as int;
    let r = (x % d) as int;
    if r == 0 {
        assert(q * d < x) by (nonlinear_arith)
            requires
                d >= 1,
                q < qd,
                x == d * qd,
        ;
    } else {
        assert(q * d < x) by (nonlinear_arith)
            requires
                d >= 1,
                q <= qd,
                x == d * qd + r,
                r > 0,
        ;
    }
}

/// A block that starts strictly inside the width has an index below the
/// ceiling quotient.
proof fn lemma_ceil_div_upper(x: nat, d: nat, q: nat)
    requires
        d >= 1,
        q * d < x,
    ensures
        q < ceil_div(x, d),
{
    lemma_fundamental_div_mod(x as int, d as int);
    lemma_mod_bound(x as int, d as int);
    let qd = (x / d) as int;
    let r = (x % d) as int;
    if r == 0 {
        assert(q < qd) by (nonlinear_arith)
            requires
                d >= 1,
                q * d < x,
                x == d * qd,
        ;
    } else {
        assert(q < qd + 1) by (nonlinear_arith)
            requires
                d >= 1,
                q * d < x,
                x == d * qd + r,
                r < d,
        ;
    }
}

/// The band whose first row index is `q * d` with fewer than `d` rows after
/// it is the last band: the band count is `q + 1`.
proof fn lemma_ceil_div_block(x: nat, d: nat, q: nat)
    requires
        d >= 1,
        q * d < x,
        x <= q * d + d,
    ensures
        ceil_div(x, d) == q + 1,
{
    lemma_fundamental_div_mod(x as int, d as int);
    lemma_mod_bound(x as int, d as int);
    let qd = (x / d) as int;
    let r = (x % d) as int;
    if r == 0 {
        assert(qd == q + 1) by (nonlinear_arith)
            requires
                d >= 1,
                q * d < x,
                x <= q * d + d,
                x == d * qd,
        ;
    } else {
        assert(qd == q) by (nonlinear_arith)
            requires
                d >= 1,
                q * d < x,
                x <= q * d + d,
                x == d * qd + r,
                0 < r < d,
        ;
    }
}

/// Relies on `String::push` of std: it appends exactly the given character.
pub assume_specification[ String::push ](s: &mut String, ch: char)
    ensures
        final(s)@ == old(s)@.push(ch),
;

/// Render a bitmap as one string per band.
///
/// The rows are split into consecutive bands of `rows_per_character` rows
/// (the last band may be shorter). Each band is split into column blocks of
/// `cols_per_character` columns across the width of the band's first row
/// (the last block may be narrower). Each block's pixels are packed
/// row-major into a code (a pixel beyond a row's stored length is unset),
/// which is translated by the strategy and rendered as one character.
///
/// The result is exactly `spec_draw` of the bitmap: rendering is
/// deterministic, a pure function of the bitmap and the strategy.
pub fn draw_from_vec<S: ConsoleBitmap>(v: &[Vec<bool>]) -> (out: Vec<String>)
    requires
        pow2(S::spec_cols() * S::spec_rows()) <= usize::MAX as nat + 1,
    ensures
        out.deep_view() == spec_draw::<S>(v.deep_view()),
{
    proof {
        S::geometry_positive();
        lemma_ceil_div_zero(S::spec_rows());
    }
    let cols = S::cols_per_character();
    let rows = S::rows_per_character();
    let n = v.len();
    let ghost bm = v.deep_view();
    let ghost goal = spec_draw::<S>(bm);
    let mut out: Vec<String> = Vec::new();
    let mut start: usize = 0;
    proof {
        assert(out@.len() == 0);
        assert(0int == 0int * (rows as int)) by (nonlinear_arith);
    }
    while start < n
        invariant
            cols as nat == S::spec_cols(),
            rows as nat == S::spec_rows(),
            cols >= 1,
            rows >= 1,
            pow2(S::spec_cols() * S::spec_rows()) <= usize::MAX as nat + 1,
            n == v@.len(),
            bm == v.deep_view(),
            bm.len() == n,
            goal == spec_draw::<S>(bm),
            goal.len() == ceil_div(n as nat, rows as nat),
            start <= n,
            start < n ==> start as int == out@.len() * (rows as int),
            start == n ==> out@.len() == goal.len(),
            out@.len() <= goal.len(),
            forall|i: int| 0 <= i < out@.len() ==> out@[i]@ == #[trigger] goal[i],
        decreases n - start,
    {
        let ghost b = out@.len() as int;
        let end = if n - start > rows {
            start + rows
        } else {
            n
        };
        let ghost band = band_of(bm, b, rows as nat);
        proof {
            assert((b + 1) * (rows as int) == b * (rows as int) + rows as int) by (nonlinear_arith);
            assert(band == bm.subrange(start as int, end as int));
            lemma_ceil_div_upper(n as nat, rows as nat, b as nat);
            assert forall|li: int| 0 <= li < band.len() implies band[li] == v@[start + li]@ by {
                assert(band[li] == bm[start + li]);
                assert(v@[start + li].deep_view() =~= v@[start + li]@);
            }
        }
        let lines = end - start;
        let width = v[start].len();
        proof {
            assert(band[0] == v@[start as int]@);
            assert(band_width(band) == width as nat);
        }
        proof {
            lemma_ceil_div_le(width as nat, cols as nat);
        }
        let nb = width / cols + if width % cols == 0 {
            0
        } else {
            1
        };
        let ghost bchars = band_chars::<S>(band);
        proof {
            assert(goal[b] == bchars);
            assert(bchars.len() == nb as int);
            assert(lines as nat * (cols as nat) <= (rows as nat) * (cols as nat)) by {
                lemma_mul_inequality(lines as int, rows as int, cols as int);
            }
            assert((rows as nat) * (cols as nat) == S::spec_cols() * S::spec_rows())
                by (nonlinear_arith)
                requires
                    rows as nat == S::spec_rows(),
                    cols as nat == S::spec_cols(),
            ;
            crate::bits::lemma_pow2_exceeds(S::spec_cols() * S::spec_rows());
        }
        let mut line_str = String::new();
        let mut k: usize = 0;
        let mut j: usize = 0;
        while k < nb
            invariant
                cols as nat == S::spec_cols(),
                rows as nat == S::spec_rows(),
                cols >= 1,
                rows >= 1,
                pow2(S::spec_cols() * S::spec_rows()) <= usize::MAX as nat + 1,
                n == v@.len(),
                start < end <= n,
                lines == end - start,
                lines <= rows,
                band.len() == lines as int,
                forall|li: int| 0 <= li < band.len() ==> band[li] == v@[start + li]@,
                lines as nat * (cols as nat) <= S::spec_cols() * S::spec_rows(),
                S::spec_cols() * S::spec_rows() <= usize::MAX,
                width as nat == band_width(band),
                nb as nat == ceil_div(width as nat, cols as nat),
                bchars == band_chars::<S>(band),
                bchars.len() == nb as int,
                k <= nb,
                line_str@.len() == k,
                k < nb ==> j as int == (k as int) * (cols as int),
                forall|i: int| 0 <= i < k ==> line_str@[i] == #[trigger] bchars[i],
            decreases nb - k,
        {
            let mut code: usize = 0;
            let ghost cb = cell_bits(band, j as int, cols as nat);
            let total = lines * cols;
            proof {
                assert(cb.len() == (lines as int) * (cols as int));
            }
            let mut t = total;
            while t > 0
                invariant
                    cols >= 1,
                    n == v@.len(),
                    start < end <= n,
                    lines == end - start,
                    band.len() == lines as int,
                    forall|li: int| 0 <= li < band.len() ==> band[li] == v@[start + li]@,
                    cb == cell_bits(band, j as int, cols as nat),
                    cb.len() == total as int,
                    total == lines * cols,
                    lines as nat * (cols as nat) <= S::spec_cols() * S::spec_rows(),
                    pow2(S::spec_cols() * S::spec_rows()) <= usize::MAX as nat + 1,
                    t <= total,
                    code as nat == pack_bits(cb.skip(t as int)),
                decreases t,
            {
                t -= 1;
                let li = t / cols;
                let ci = t % cols;
                proof {
                    lemma_flat_index(t as int, lines as int, cols as int);
                }
                let line = &v[start + li];
                proof {
                    assert(line@ == band[li as int]);
                }
                let bit = if j < line.len() && ci < line.len() - j {
                    line[j + ci]
                } else {
                    false
                };
                proof {
                    assert(bit == bit_at(band[li as int], j + ci));
                    assert(cb[t as int] == bit_at(band[li as int], j + ci));
                    lemma_pack_bits_skip(cb, t as int);
                    lemma_pack_bits_bound(cb.skip(t as int + 1));
                    let remaining = (cb.len() - t) as nat;
                    lemma_pow2_unfold(remaining);
                    if remaining < S::spec_cols() * S::spec_rows() {
                        lemma_pow2_strictly_increases(remaining, S::spec_cols() * S::spec_rows());
                    }
                    assert(2 * (code as nat) + 1 < pow2(remaining));
                }
                code = 2 * code + if bit {
                    1
                } else {
                    0
                };
            }
            proof {
                assert(cb.skip(0) =~= cb);
                lemma_pack_bits_bound(cb);
                if cb.len() < S::spec_cols() * S::spec_rows() {
                    lemma_pow2_strictly_increases(
                        cb.len() as nat,
                        S::spec_cols() * S::spec_rows(),
                    );
                }
            }
            let tr = S::translate_character(code);
            let ch = S::character(tr);
            line_str.push(ch);
            proof {
                assert(bchars[k as int] == ch);
            }
            k += 1;
            if k < nb {
                proof {
                    lemma_ceil_div_lower(width as nat, cols as nat, k as nat);
                    assert((k as int) * (cols as int) == (k as int - 1) * (cols as int)
                        + cols as int) by (nonlinear_arith);
                }
                j += cols;
            }
        }
        out.push(line_str);
        proof {
            assert(line_str@ =~= bchars);
            assert(out@[b] == line_str);
        }
        start = end;
        proof {
            if end < n {
                assert(n - (b * (rows as int)) > rows);
                assert((b + 1) * (rows as int) == b * (rows as int) + rows as int)
                    by (nonlinear_arith);
            } else {
                lemma_ceil_div_block(n as nat, rows as nat, b as nat);
            }
        }
    }
    proof {
        assert(out.deep_view() =~= goal);
    }
    out
}

/// Convenience adapter: render an owned bitmap. It normalizes the input to
/// the borrowed form and delegates to `draw_from_vec`.
pub fn draw<S: ConsoleBitmap>(v: Vec<Vec<bool>>) -> (out: Vec<String>)
    requires
        pow2(S::spec_cols() * S::spec_rows()) <= usize::MAX as nat + 1,
    ensures
        out.deep_view() == spec_draw::<S>(v.deep_view()),
{
    let s = v.as_slice();
    let out = draw_from_vec::<S>(s);
    proof {
        assert(s.deep_view() =~= v.deep_view());
    }
    out
}

/// An empty bitmap renders as an empty output sequence, for any strategy.
pub proof fn lemma_empty_bitmap<S: ConsoleBitmap>()
    ensures
        spec_draw::<S>(Seq::empty()) == Seq::<Seq<char>>::empty(),
{
    S::geometry_positive();
    lemma_ceil_div_zero(S::spec_rows());
    assert(spec_draw::<S>(Seq::empty()) =~= Seq::<Seq<char>>::empty());
}

/// A cell whose pixels are all unset packs to code zero, so its character
/// is the strategy's glyph of the translated zero code.
pub proof fn lemma_unset_cell_blank<S: ConsoleBitmap>(band: Seq<Seq<bool>>, j: int)
    requires
        forall|r: int, c: int| 0 <= r < band.len() && 0 <= c < band[r].len() ==> !(#[trigger] band[r][c]),
    ensures
        cell_code(band, j, S::spec_cols()) == 0,
        S::spec_character(S::spec_translate(cell_code(band, j, S::spec_cols()))) == S::spec_character(
            S::spec_translate(0),
        ),
{
    S::geometry_positive();
    let cols = S::spec_cols();
    let cb = cell_bits(band, j, cols);
    assert forall|t: int| 0 <= t < cb.len() implies !cb[t] by {
        lemma_flat_index(t, band.len() as int, cols as int);
        let row = band[t / (cols as int)];
        let c = j + t % (cols as int);
        assert(bit_at(row, c) ==> row[c]);
    }
    lemma_pack_bits_zero(cb);
}

/// Rendering is deterministic: equal bitmaps render equally under one
/// strategy.
pub proof fn lemma_draw_deterministic<S: ConsoleBitmap>(a: Seq<Seq<bool>>, b: Seq<Seq<bool>>)
    requires
        a == b,
    ensures
        spec_draw::<S>(a) == spec_draw::<S>(b),
{
}

} // verus!
