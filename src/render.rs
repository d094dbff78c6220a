//! Rasterization of a module matrix into half-block terminal glyphs.

use vstd::prelude::*;

use qrcode::types::Color;

use crate::pad::lemma_cell_index;
use crate::sqrt::{is_square, side, usize_sqrt};

verus! {

/// One of the two terminal colours the renderer paints with.
#[derive(Clone, Copy, Debug, PartialEq, Eq, Structural)]
pub enum TermColor {
    Black,
    White,
}

/// One emission to the terminal: a glyph painted in a foreground and a
/// background colour, or a line break without style.
#[derive(Clone, Copy, Debug, PartialEq, Eq, Structural)]
pub enum Emission {
    Glyph { glyph: char, fg: TermColor, bg: TermColor },
    Newline,
}

/// The lower half block, the only glyph besides the space.
pub const LOWER_HALF: char = '\u{2584}';

/// A glyph painted in `fg` on `bg`.
pub open spec fn glyph(c: char, fg: TermColor, bg: TermColor) -> Emission {
    Emission::Glyph { glyph: c, fg, bg }
}

/// The glyph for one text cell showing module `top` above module `bottom`.
///
/// Only the space and the lower half block are used: fore- and background
/// swap to show the other two combinations, since a full or upper half block
/// leaves a seam between lines on many fonts.
pub open spec fn pair_glyph(top: Color, bottom: Color) -> Emission {
    match (top, bottom) {
        (Color::Dark, Color::Dark) => glyph(' ', TermColor::White, TermColor::Black),
        (Color::Dark, Color::Light) => glyph(LOWER_HALF, TermColor::White, TermColor::Black),
        (Color::Light, Color::Dark) => glyph(LOWER_HALF, TermColor::Black, TermColor::White),
        (Color::Light, Color::Light) => glyph(' ', TermColor::Black, TermColor::White),
    }
}

/// The glyph for a module of the last, unpaired row of an odd-sided matrix.
pub open spec fn tail_glyph(c: Color) -> Emission {
    match c {
        Color::Dark => glyph(LOWER_HALF, TermColor::White, TermColor::Black),
        Color::Light => glyph(' ', TermColor::Black, TermColor::White),
    }
}

/// The first `n` glyphs of the text line showing module rows `2 * i` and
/// `2 * i + 1` of the `w`-wide matrix `cells`.
pub open spec fn pair_line_prefix(cells: Seq<Color>, w: nat, i: nat, n: nat) -> Seq<Emission> {
    Seq::new(n, |c: int| pair_glyph(cells[2 * i * w + c], cells[(2 * i + 1) * w + c]))
}

/// The text line showing module rows `2 * i` and `2 * i + 1`, with its line break.
pub open spec fn pair_line(cells: Seq<Color>, w: nat, i: nat) -> Seq<Emission> {
    pair_line_prefix(cells, w, i, w).push(Emission::Newline)
}

/// The text lines for the first `k` row pairs.
pub open spec fn pair_lines(cells: Seq<Color>, w: nat, k: nat) -> Seq<Emission>
    decreases k,
{
    if k == 0 {
        Seq::empty()
    } else {
        pair_lines(cells, w, (k - 1) as nat) + pair_line(cells, w, (k - 1) as nat)
    }
}

/// The first `n` glyphs of the line showing the last row of an odd-sided matrix.
pub open spec fn tail_line_prefix(cells: Seq<Color>, w: nat, n: nat) -> Seq<Emission> {
    Seq::new(n, |c: int| tail_glyph(cells[(w - 1) * w + c]))
}

/// The line for the unpaired last row: empty when the side is even.
pub open spec fn tail_line(cells: Seq<Color>, w: nat) -> Seq<Emission> {
    if w % 2 == 1 {
        tail_line_prefix(cells, w, w).push(Emission::Newline)
    } else {
        Seq::empty()
    }
}

/// Everything a square matrix is drawn as: its row pairs top to bottom, each
/// left to right and closed by a line break, then the unpaired last row.
pub open spec fn rasterize(cells: Seq<Color>) -> Seq<Emission> {
    let w = side(cells.len());
    pair_lines(cells, w, w / 2) + tail_line(cells, w)
}

/// How many styled glyphs `s` holds.
pub open spec fn glyph_count(s: Seq<Emission>) -> nat
    decreases s.len(),
{
    if s.len() == 0 {
        0
    } else {
        glyph_count(s.drop_last()) + if s.last() is Glyph {
            1nat
        } else {
            0nat
        }
    }
}

/// How many line breaks `s` holds.
pub open spec fn newline_count(s: Seq<Emission>) -> nat
    decreases s.len(),
{
    if s.len() == 0 {
        0
    } else {
        newline_count(s.drop_last()) + if s.last() is Newline {
            1nat
        } else {
            0nat
        }
    }
}

/// Both counts add up over a concatenation.
pub proof fn lemma_counts_concat(a: Seq<Emission>, b: Seq<Emission>)
    ensures
        glyph_count(a + b) == glyph_count(a) + glyph_count(b),
        newline_count(a + b) == newline_count(a) + newline_count(b),
    decreases b.len(),
{
    if b.len() == 0 {
        assert(a + b =~= a);
    } else {
        lemma_counts_concat(a, b.drop_last());
        assert((a + b).drop_last() =~= a + b.drop_last());
    }
}

/// A run of glyphs alone counts its length in glyphs and no line break.
proof fn lemma_counts_glyph_run(s: Seq<Emission>)
    requires
        forall|i: int| 0 <= i < s.len() ==> (#[trigger] s[i]) is Glyph,
    ensures
        glyph_count(s) == s.len(),
        newline_count(s) == 0,
    decreases s.len(),
{
    if s.len() > 0 {
        lemma_counts_glyph_run(s.drop_last());
    }
}

/// A run of glyphs closed by a line break counts its glyphs and one break.
proof fn lemma_counts_line(s: Seq<Emission>)
    requires
        forall|i: int| 0 <= i < s.len() ==> (#[trigger] s[i]) is Glyph,
    ensures
        glyph_count(s.push(Emission::Newline)) == s.len(),
        newline_count(s.push(Emission::Newline)) == 1,
{
    lemma_counts_glyph_run(s);
    assert(s.push(Emission::Newline).drop_last() =~= s);
}

/// The first `k` row pairs of a `w`-wide matrix give `k * w` glyphs and `k` line breaks.
proof fn lemma_counts_pair_lines(cells: Seq<Color>, w: nat, k: nat)
    ensures
        glyph_count(pair_lines(cells, w, k)) == k * w,
        newline_count(pair_lines(cells, w, k)) == k,
    decreases k,
{
    if k > 0 {
        let j = (k - 1) as nat;
        lemma_counts_pair_lines(cells, w, j);
        lemma_counts_line(pair_line_prefix(cells, w, j, w));
        lemma_counts_concat(pair_lines(cells, w, j), pair_line(cells, w, j));
        assert(j * w + w == k * w) by (nonlinear_arith)
            requires
                j + 1 == k,
        ;
        assert(pair_line_prefix(cells, w, j, w).len() == w);
    } else {
        assert(k * w == 0) by (nonlinear_arith)
            requires
                k == 0,
        ;
    }
}

/// A matrix of side `W` is drawn as exactly `W · ⌈W/2⌉` glyphs and `⌈W/2⌉`
/// line breaks.
pub proof fn lemma_rasterize_counts(cells: Seq<Color>)
    requires
        is_square(cells.len()),
    ensures
        glyph_count(rasterize(cells)) == side(cells.len()) * ((side(cells.len()) + 1) / 2),
        newline_count(rasterize(cells)) == (side(cells.len()) + 1) / 2,
{
    let w = side(cells.len());
    let h = w / 2;
    lemma_counts_pair_lines(cells, w, h);
    lemma_counts_concat(pair_lines(cells, w, h), tail_line(cells, w));
    if w % 2 == 1 {
        lemma_counts_line(tail_line_prefix(cells, w, w));
        assert((w + 1) / 2 == h + 1);
        assert(h * w + w == w * (h + 1)) by (nonlinear_arith);
    } else {
        assert(glyph_count(Seq::<Emission>::empty()) == 0);
        assert((w + 1) / 2 == h);
        assert(h * w == w * h) by (nonlinear_arith);
    }
}

/// Drawing is deterministic: the same matrix, drawn after the same
/// emissions, leaves the same emissions.
pub proof fn lemma_rasterize_deterministic(
    before: Seq<Emission>,
    a: Seq<Color>,
    b: Seq<Color>,
    after_a: Seq<Emission>,
    after_b: Seq<Emission>,
)
    requires
        a == b,
        after_a == before + rasterize(a),
        after_b == before + rasterize(b),
    ensures
        after_a == after_b,
{
}

/// Lays out QR codes as the list of emissions a terminal has to receive, in order.
pub struct Renderer {
    runs: Vec<Emission>,
}

impl View for Renderer {
    type V = Seq<Emission>;

    closed spec fn view(&self) -> Seq<Emission> {
        self.runs@
    }
}

impl Renderer {
    /// A renderer that has emitted nothing yet.
    pub fn new() -> (r: Self)
        ensures
            r@ == Seq::<Emission>::empty(),
    {
        Renderer { runs: Vec::new() }
    }

    /// The emissions so far, in order.
    pub fn runs(&self) -> (r: &Vec<Emission>)
        ensures
            r@ == self@,
    {
        &self.runs
    }

    /// Hands over the emissions so far, in order.
    pub fn into_runs(self) -> (r: Vec<Emission>)
        ensures
            r@ == self@,
    {
        self.runs
    }

    /// Emits a cell showing a dark module above a light one.
    fn black_above_white(&mut self)
        ensures
            final(self)@ == old(self)@.push(pair_glyph(Color::Dark, Color::Light)),
    {
        self.runs.push(Emission::Glyph { glyph: LOWER_HALF, fg: TermColor::White, bg: TermColor::Black });
    }

    /// Emits a cell showing a light module above a dark one.
    fn white_above_black(&mut self)
        ensures
            final(self)@ == old(self)@.push(pair_glyph(Color::Light, Color::Dark)),
    {
        self.runs.push(Emission::Glyph { glyph: LOWER_HALF, fg: TermColor::Black, bg: TermColor::White });
    }

    /// Emits a cell showing two dark modules.
    fn black_above_black(&mut self)
        ensures
            final(self)@ == old(self)@.push(pair_glyph(Color::Dark, Color::Dark)),
    {
        self.runs.push(Emission::Glyph { glyph: ' ', fg: TermColor::White, bg: TermColor::Black });
    }

    /// Emits a cell showing two light modules.
    fn white_above_white(&mut self)
        ensures
            final(self)@ == old(self)@.push(pair_glyph(Color::Light, Color::Light)),
    {
        self.runs.push(Emission::Glyph { glyph: ' ', fg: TermColor::Black, bg: TermColor::White });
    }

    /// Ends the current text line, without style so that colours do not run on.
    fn newline(&mut self)
        ensures
            final(self)@ == old(self)@.push(Emission::Newline),
    {
        self.runs.push(Emission::Newline);
    }

    /// Emits the square matrix `pixels` (row-major), two module rows per text line.
    pub fn print_matrix(&mut self, pixels: &[Color])
        requires
            is_square(pixels@.len()),
        ensures
            final(self)@ == old(self)@ + rasterize(pixels@),
    {
        let width = usize_sqrt(pixels.len()).unwrap();
        let ghost w = width as nat;
        let ghost start = self@;

        let mut row: usize = 0;
        while row < width / 2
            invariant
                w == width as nat,
                w == side(pixels@.len()),
                width * width == pixels@.len(),
                pixels@.len() <= usize::MAX,
                row <= width / 2,
                self@ == start + pair_lines(pixels@, w, row as nat),
            decreases width / 2 - row,
        {
            let mut col: usize = 0;
            while col < width
                invariant
                    w == width as nat,
                    width * width == pixels@.len(),
                    pixels@.len() <= usize::MAX,
                    row < width / 2,
                    col <= width,
                    self@ == start + pair_lines(pixels@, w, row as nat) + pair_line_prefix(
                        pixels@,
                        w,
                        row as nat,
                        col as nat,
                    ),
                decreases width - col,
            {
                proof {
                    lemma_cell_index(2 * row as int, col as int, w as int);
                    lemma_cell_index(2 * row as int + 1, col as int, w as int);
                }
                let top = pixels[(row * 2) * width + col];
                let bottom = pixels[(row * 2 + 1) * width + col];
                match (top, bottom) {
                    (Color::Dark, Color::Dark) => self.black_above_black(),
                    (Color::Dark, Color::Light) => self.black_above_white(),
                    (Color::Light, Color::Dark) => self.white_above_black(),
                    (Color::Light, Color::Light) => self.white_above_white(),
                }
                proof {
                    assert(pair_line_prefix(pixels@, w, row as nat, (col + 1) as nat)
                        =~= pair_line_prefix(pixels@, w, row as nat, col as nat).push(
                        pair_glyph(top, bottom),
                    ));
                }
                col += 1;
            }
            self.newline();
            proof {
                assert(self@ =~= start + pair_lines(pixels@, w, (row + 1) as nat));
            }
            row += 1;
        }

        // An odd number of module rows leaves the last one unpaired.
        if width % 2 == 1 {
            let mut col: usize = 0;
            while col < width
                invariant
                    w == width as nat,
                    width * width == pixels@.len(),
                    pixels@.len() <= usize::MAX,
                    width % 2 == 1,
                    col <= width,
                    self@ == start + pair_lines(pixels@, w, w / 2) + tail_line_prefix(
                        pixels@,
                        w,
                        col as nat,
                    ),
                decreases width - col,
            {
                proof {
                    lemma_cell_index(w - 1, col as int, w as int);
                }
                let cell = pixels[(width - 1) * width + col];
                match cell {
                    Color::Dark => self.black_above_white(),
                    Color::Light => self.white_above_white(),
                }
                proof {
                    assert(tail_line_prefix(pixels@, w, (col + 1) as nat) =~= tail_line_prefix(
                        pixels@,
                        w,
                        col as nat,
                    ).push(tail_glyph(cell)));
                }
                col += 1;
            }
            self.newline();
        }
        proof {
            assert(self@ =~= start + rasterize(pixels@));
        }
    }
}

} // verus!
