//! Quiet-zone padding of square matrices.

use vstd::prelude::*;

use crate::render::Renderer;
use crate::sqrt::{is_square, lemma_side_of_square, side, square, usize_sqrt};

verus! {

/// The cell at (`row`, `col`) of a `w`-wide square matrix `cells` surrounded by
/// a border `t` cells thick of `quiet`.
pub open spec fn pad_cell<T>(cells: Seq<T>, w: nat, t: nat, quiet: T, row: int, col: int) -> T {
    if t <= row < t + w && t <= col < t + w {
        cells[(row - t) * w + (col - t)]
    } else {
        quiet
    }
}

/// The side of the matrix `cells` once surrounded by a border `t` cells thick.
pub open spec fn padded_side<T>(cells: Seq<T>, t: nat) -> nat {
    side(cells.len()) + 2 * t
}

/// The square matrix `cells` centred in a border `t` cells thick of `quiet`,
/// row-major.
pub open spec fn pad<T>(cells: Seq<T>, t: nat, quiet: T) -> Seq<T> {
    let ow = padded_side(cells, t);
    Seq::new(
        ow * ow,
        |k: int| pad_cell(cells, side(cells.len()), t, quiet, k / ow as int, k % ow as int),
    )
}

/// Index `row * w + col` of a `w`-wide matrix lies in it and maps back to its
/// row and column.
pub proof fn lemma_cell_index(row: int, col: int, w: int)
    requires
        0 <= row < w,
        0 <= col < w,
    ensures
        row * w + col < w * w,
        (row * w + col) / w == row,
        (row * w + col) % w == col,
{
    assert(row * w + col < w * w) by (nonlinear_arith)
        requires
            0 <= row < w,
            0 <= col < w,
    ;
    vstd::arithmetic::div_mod::lemma_fundamental_div_mod_converse(row * w + col, w, row, col);
}

/// The cell at (`row`, `col`) of the `w`-wide row-major matrix `cells`.
pub open spec fn matrix_cell<T>(cells: Seq<T>, w: nat, row: int, col: int) -> T {
    cells[row * w + col]
}

/// Padding with no thickness gives the matrix back unchanged.
pub proof fn lemma_pad_identity<T>(cells: Seq<T>, quiet: T)
    requires
        is_square(cells.len()),
    ensures
        pad(cells, 0, quiet) == cells,
{
    let w = side(cells.len());
    assert(square(w) == cells.len());
    let p = pad(cells, 0, quiet);
    assert forall|k: int| 0 <= k < cells.len() implies #[trigger] p[k] == cells[k] by {
        let q = k / (w as int);
        let r = k % (w as int);
        vstd::arithmetic::div_mod::lemma_fundamental_div_mod(k, w as int);
        vstd::arithmetic::div_mod::lemma_mod_bound(k, w as int);
        vstd::arithmetic::div_mod::lemma_div_pos_is_pos(k, w as int);
        assert(q < w) by (nonlinear_arith)
            requires
                k == w * q + r,
                0 <= r,
                k < w * w,
                w > 0,
        ;
        assert(q * w + r == k) by (nonlinear_arith)
            requires
                k == w * q + r,
        ;
    }
    assert(p =~= cells);
}

/// A matrix of side `w` padded by `t` has `(w + 2t)²` cells.
pub proof fn lemma_pad_len<T>(cells: Seq<T>, t: nat, quiet: T)
    requires
        is_square(cells.len()),
    ensures
        pad(cells, t, quiet).len() == (side(cells.len()) + 2 * t) * (side(cells.len()) + 2 * t),
{
}

/// Every padded cell outside the central window holds the fill value.
pub proof fn lemma_pad_border<T>(cells: Seq<T>, t: nat, quiet: T)
    requires
        is_square(cells.len()),
    ensures
        forall|row: int, col: int|
            0 <= row < padded_side(cells, t) && 0 <= col < padded_side(cells, t) && !(t <= row < t
                + side(cells.len()) && t <= col < t + side(cells.len())) ==> #[trigger] matrix_cell(
                pad(cells, t, quiet),
                padded_side(cells, t),
                row,
                col,
            ) == quiet,
{
    let ow = padded_side(cells, t);
    assert forall|row: int, col: int|
        0 <= row < ow && 0 <= col < ow && !(t <= row < t + side(cells.len()) && t <= col < t + side(
            cells.len(),
        )) implies #[trigger] matrix_cell(pad(cells, t, quiet), ow, row, col) == quiet by {
        lemma_cell_index(row, col, ow as int);
    }
}

/// The central window of a padded matrix is the original matrix, cell for cell.
pub proof fn lemma_pad_interior<T>(cells: Seq<T>, t: nat, quiet: T)
    requires
        is_square(cells.len()),
    ensures
        forall|row: int, col: int|
            0 <= row < side(cells.len()) && 0 <= col < side(cells.len()) ==> matrix_cell(
                pad(cells, t, quiet),
                padded_side(cells, t),
                row + t,
                col + t,
            ) == #[trigger] matrix_cell(cells, side(cells.len()), row, col),
{
    let ow = padded_side(cells, t);
    let w = side(cells.len());
    assert forall|row: int, col: int| 0 <= row < w && 0 <= col < w implies matrix_cell(
        pad(cells, t, quiet),
        ow,
        row + t,
        col + t,
    ) == #[trigger] matrix_cell(cells, w, row, col) by {
        lemma_cell_index(row + t, col + t, ow as int);
    }
}

/// Padding the empty matrix gives a `2t`-wide square of the fill value.
pub proof fn lemma_pad_empty<T>(t: nat, quiet: T)
    ensures
        pad(Seq::<T>::empty(), t, quiet) == Seq::new((2 * t) * (2 * t), |k: int| quiet),
{
    lemma_side_of_square(0);
    assert(pad(Seq::<T>::empty(), t, quiet) =~= Seq::new((2 * t) * (2 * t), |k: int| quiet));
}

/// A natural is at most its square.
proof fn lemma_le_square(x: nat)
    ensures
        x <= x * x,
{
    assert(x <= x * x) by (nonlinear_arith);
}

impl Renderer {
    /// Surrounds the square matrix `pixels` (row-major) with a border of
    /// `quiet` pixels `thickness` wide on every side.
    pub fn surround_quiet<T: Copy>(pixels: &[T], thickness: usize, quiet: T) -> (r: Vec<T>)
        requires
            is_square(pixels@.len()),
            padded_side(pixels@, thickness as nat) * padded_side(pixels@, thickness as nat)
                <= usize::MAX,
        ensures
            r@ == pad(pixels@, thickness as nat, quiet),
    {
        let width = usize_sqrt(pixels.len()).unwrap();
        let ghost w = width as nat;
        let ghost t = thickness as nat;
        proof {
            lemma_le_square(w + 2 * t);
        }
        let out_width = width + thickness * 2;
        let ghost ow = out_width as nat;

        let mut out: Vec<T> = Vec::new();
        let mut out_row: usize = 0;
        while out_row < out_width
            invariant
                width as nat == side(pixels@.len()),
                w == width as nat,
                t == thickness as nat,
                ow == out_width as nat,
                width * width == pixels@.len(),
                pixels@.len() <= usize::MAX,
                out_width == width + thickness * 2,
                ow * ow <= usize::MAX,
                out_row <= out_width,
                out@.len() == out_row * ow,
                forall|k: int|
                    0 <= k < out@.len() ==> #[trigger] out@[k] == pad_cell(
                        pixels@,
                        w,
                        t,
                        quiet,
                        k / ow as int,
                        k % ow as int,
                    ),
            decreases out_width - out_row,
        {
            let mut out_col: usize = 0;
            while out_col < out_width
                invariant
                    width as nat == side(pixels@.len()),
                w == width as nat,
                t == thickness as nat,
                ow == out_width as nat,
                    width * width == pixels@.len(),
                    pixels@.len() <= usize::MAX,
                    out_width == width + thickness * 2,
                    ow * ow <= usize::MAX,
                    out_row < out_width,
                    out_col <= out_width,
                    out@.len() == out_row * ow + out_col,
                    forall|k: int|
                        0 <= k < out@.len() ==> #[trigger] out@[k] == pad_cell(
                            pixels@,
                            w,
                            t,
                            quiet,
                            k / ow as int,
                            k % ow as int,
                        ),
                decreases out_width - out_col,
            {
                proof {
                    lemma_cell_index(out_row as int, out_col as int, ow as int);
                }
                if thickness <= out_row && out_row < thickness + width && thickness <= out_col
                    && out_col < thickness + width {
                    let row = out_row - thickness;
                    let col = out_col - thickness;
                    proof {
                        lemma_cell_index(row as int, col as int, w as int);
                    }
                    out.push(pixels[row * width + col]);
                } else {
                    out.push(quiet);
                }
                out_col += 1;
            }
            proof {
                assert((out_row + 1) * ow == out_row * ow + ow) by (nonlinear_arith);
            }
            out_row += 1;
        }
        proof {
            assert(out@ =~= pad(pixels@, t, quiet));
        }
        out
    }
}

} // verus!
