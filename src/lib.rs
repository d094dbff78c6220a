//! Renders text as a QR code on a terminal, two module rows per text row.
//!
//! The library lays out the code: it encodes the text, surrounds the module
//! matrix with a quiet zone and turns it into the ordered list of styled
//! half-block glyphs and line breaks that a terminal has to be sent.

use vstd::prelude::*;

pub mod encode;
pub mod pad;
pub mod render;
pub mod sqrt;

pub use encode::qr_encoding;
pub use qrcode::types::{Color, QrError};
pub use pad::{pad, pad_cell, padded_side};
pub use render::{rasterize, Emission, Renderer, TermColor, LOWER_HALF};
pub use sqrt::{is_square, side, square, usize_sqrt};

verus! {

/// Thickness, in modules, of the light border drawn around each code.
///
/// The QR standard asks for 4; 2 keeps codes small enough for narrow
/// terminals and still scans.
pub const QUIET_ZONE_WIDTH: usize = 2;

/// A code of at most 177 × 177 modules has a side of at most 177, and its
/// padded cells can be indexed by `usize`.
proof fn lemma_qr_side_bound(cells: Seq<Color>)
    requires
        is_square(cells.len()),
        cells.len() <= 177 * 177,
    ensures
        side(cells.len()) <= 177,
        padded_side(cells, QUIET_ZONE_WIDTH as nat) * padded_side(cells, QUIET_ZONE_WIDTH as nat)
            <= usize::MAX,
{
    let s = side(cells.len());
    assert(square(s) == cells.len());
    if s > 177 {
        assert(s * s > 177 * 177) by (nonlinear_arith)
            requires
                s > 177,
        ;
    }
    let ow = padded_side(cells, QUIET_ZONE_WIDTH as nat);
    assert(ow * ow <= 181 * 181) by (nonlinear_arith)
        requires
            ow <= 181,
    ;
}

impl Renderer {
    /// Lays out `text` as a QR code, quiet zone included, after what was
    /// emitted before.
    ///
    /// When the encoder cannot encode the text its error comes back and
    /// nothing is emitted.
    pub fn print_qr(&mut self, text: &str) -> (r: Result<(), QrError>)
        ensures
            match qr_encoding(text@) {
                Ok(cells) => r is Ok && final(self)@ == old(self)@ + render::rasterize(
                    pad(cells, QUIET_ZONE_WIDTH as nat, Color::Light),
                ),
                Err(e) => r == Err::<(), QrError>(e) && final(self)@ == old(self)@,
            },
    {
        // Generate the code, obtain the module colours
        let pixels = match encode::encode_text(text) {
            Ok(pixels) => pixels,
            Err(e) => return Err(e),
        };
        proof {
            lemma_qr_side_bound(pixels@);
        }
        self.print_code(pixels.as_slice());
        Ok(())
    }

    /// Lays out the square module matrix `modules` of a code, surrounded by
    /// its quiet zone, after what was emitted before.
    pub fn print_code(&mut self, modules: &[Color])
        requires
            is_square(modules@.len()),
            padded_side(modules@, QUIET_ZONE_WIDTH as nat) * padded_side(
                modules@,
                QUIET_ZONE_WIDTH as nat,
            ) <= usize::MAX,
        ensures
            final(self)@ == old(self)@ + render::rasterize(
                pad(modules@, QUIET_ZONE_WIDTH as nat, Color::Light),
            ),
    {
        // Surround the code with the quiet zone
        let pixels = Renderer::surround_quiet(modules, QUIET_ZONE_WIDTH, Color::Light);
        proof {
            sqrt::lemma_side_of_square(padded_side(modules@, QUIET_ZONE_WIDTH as nat));
        }
        self.print_matrix(pixels.as_slice());
    }
}

/// Lays out `text` as a QR code for the terminal: the emissions to send, in
/// order, or the encoder's error when it cannot encode the text.
pub fn print_qr(text: &str) -> (r: Result<Vec<Emission>, QrError>)
    ensures
        match qr_encoding(text@) {
            Ok(cells) => r matches Ok(runs) && runs@ == render::rasterize(
                pad(cells, QUIET_ZONE_WIDTH as nat, Color::Light),
            ),
            Err(e) => r == Err::<Vec<Emission>, QrError>(e),
        },
{
    let mut renderer = Renderer::new();
    match renderer.print_qr(text) {
        Ok(()) => Ok(renderer.into_runs()),
        Err(e) => Err(e),
    }
}

} // verus!
