//! The QR encoder that the library relies on.

use vstd::prelude::*;

use qrcode::types::{Color, QrError};
use qrcode::QrCode;

verus! {

/// The encoder's module colour, `Dark` or `Light`; its variants are visible to proofs.
#[verifier::external_type_specification]
pub struct ExColor(qrcode::types::Color);

/// The encoder's error kind, carried through unchanged.
#[verifier::external_type_specification]
#[verifier::external_body]
pub struct ExQrError(qrcode::types::QrError);

/// The QR code (at error correction level M, in the smallest fitting version)
/// that the encoder makes of a text, as its row-major module colours, or the
/// reason it cannot.
pub uninterp spec fn qr_encoding(text: Seq<char>) -> Result<Seq<Color>, QrError>;

/// Relies on `qrcode::QrCode::new`, which picks the smallest version from 1 to 40
/// at level M, and `QrCode::into_colors`, which hands out its `width * width`
/// modules row by row, `width` being `4 * version + 17`.
#[verifier::external_body]
pub(crate) fn encode_text(text: &str) -> (r: Result<Vec<Color>, QrError>)
    ensures
        match r {
            Ok(cells) => qr_encoding(text@) == Ok::<Seq<Color>, QrError>(cells@),
            Err(e) => qr_encoding(text@) == Err::<Seq<Color>, QrError>(e),
        },
        r matches Ok(cells) ==> crate::is_square(cells@.len()) && cells@.len() <= 177 * 177,
{
    match QrCode::new(text) {
        Ok(code) => Ok(code.into_colors()),
        Err(e) => Err(e),
    }
}

} // verus!
