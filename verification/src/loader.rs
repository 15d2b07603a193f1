//! Image loader adapter: decodes a PNG resource through an external
//! decoder, validates that the image placed at its offset fits within the
//! fixed canvas bound, and yields a rectangular pixel buffer.

use vstd::prelude::*;
use vstd::string::StringExecFns;

use crate::codec::{Position, Rgb};

verus! {

/// A rectangular pixel buffer: `pixels` holds `width * height` colors in
/// row-major order (row `y` occupies indices `y * width .. (y + 1) * width`).
#[derive(Debug)]
pub struct PixelBuffer {
    pub width: usize,
    pub height: usize,
    pub pixels: Vec<Rgb>,
}

impl PixelBuffer {
    /// Well-formedness: the flat sequence holds exactly one color per
    /// pixel of the rectangle.
    pub open spec fn wf(self) -> bool {
        self.pixels@.len() == self.width * self.height
    }

    /// Builds a buffer from its parts, checking that the pixel count
    /// matches the rectangle.
    pub fn new(width: usize, height: usize, pixels: Vec<Rgb>) -> (r: Option<PixelBuffer>)
        ensures
            match r {
                Some(b) => b.wf() && b.width == width && b.height == height && b.pixels@
                    == pixels@,
                None => pixels@.len() != width * height,
            },
    {
        let n = pixels.len();
        if height == 0 {
            if n == 0 {
                Some(PixelBuffer { width, height, pixels })
            } else {
                None
            }
        } else if width > usize::MAX / height {
            proof {
                assert(width * height > usize::MAX) by (nonlinear_arith)
                    requires
                        height >= 1,
                        width > usize::MAX as int / height as int,
                ;
            }
            None
        } else {
            proof {
                assert(width * height <= usize::MAX) by (nonlinear_arith)
                    requires
                        height >= 1,
                        width <= usize::MAX as int / height as int,
                ;
            }
            let expected: usize = width * height;
            if n == expected {
                Some(PixelBuffer { width, height, pixels })
            } else {
                None
            }
        }
    }
}

/// Why loading failed: the decoder rejected the resource, or the decoded
/// image placed at its offset does not fit within the canvas bound.
#[derive(Clone, Debug, PartialEq, Eq)]
pub enum ConversionError {
    LodePNGError(String),
    DimensionsExceeded,
}

impl ConversionError {
    /// A human-readable single-line message for the error.
    pub fn message(&self) -> (s: String)
        ensures
            match self {
                ConversionError::DimensionsExceeded => s@ == "image can't fit in given position"@,
                ConversionError::LodePNGError(m) => s@ == m@,
            },
    {
        match self {
            ConversionError::DimensionsExceeded => String::from_str(
                "image can't fit in given position",
            ),
            ConversionError::LodePNGError(m) => m.clone(),
        }
    }
}

/// What the external PNG decoder yields for the given bytes: a pixel
/// buffer on success, or its diagnostic message on failure. The decoder's
/// result depends on the input bytes alone.
pub uninterp spec fn png_decode(data: Seq<u8>) -> Result<PixelBuffer, String>;

/// Relies on lodepng::decode24: decodes in-memory PNG bytes to a 24-bit
/// RGB bitmap whose buffer holds exactly width * height pixels, and on
/// lodepng::Error's message, a fixed English description of the error
/// code.
#[verifier::external_body]
fn decode24(data: &[u8]) -> (r: Result<PixelBuffer, String>)
    ensures
        r == png_decode(data@),
        r matches Ok(b) ==> b.pixels@.len() == b.width * b.height,
{
    match lodepng::decode24(data) {
        Ok(bitmap) => Ok(PixelBuffer {
            width: bitmap.width,
            height: bitmap.height,
            pixels: bitmap.buffer.iter().map(|p| Rgb { r: p.r, g: p.g, b: p.b }).collect(),
        }),
        Err(e) => Err(e.to_string()),
    }
}

/// Whether an image of the given size, placed at `pos`, reaches or passes
/// the canvas bound on either axis. The bound is exclusive: a corner
/// exactly at (160, 120) is already out.
pub open spec fn dims_exceeded(width: int, height: int, pos: Position) -> bool {
    pos.x + width >= crate::MAX_X || pos.y + height >= crate::MAX_Y
}

/// The bounds check applied to a decoded buffer.
pub open spec fn check_dims_spec(b: PixelBuffer, pos: Position) -> Result<
    PixelBuffer,
    ConversionError,
> {
    if dims_exceeded(b.width as int, b.height as int, pos) {
        Err(ConversionError::DimensionsExceeded)
    } else {
        Ok(b)
    }
}

/// Accepts a buffer placed at `pos` exactly when its bottom-right corner
/// stays strictly inside the canvas bound on both axes; otherwise fails
/// with `DimensionsExceeded`.
pub fn check_dims(buffer: PixelBuffer, pos: Position) -> (r: Result<PixelBuffer, ConversionError>)
    ensures
        r == check_dims_spec(buffer, pos),
{
    let exceeds_x = buffer.width >= crate::MAX_X || pos.x >= crate::MAX_X - buffer.width;
    let exceeds_y = buffer.height >= crate::MAX_Y || pos.y >= crate::MAX_Y - buffer.height;
    if exceeds_x || exceeds_y {
        Err(ConversionError::DimensionsExceeded)
    } else {
        Ok(buffer)
    }
}

/// What loading yields for the given bytes and placement: a decode
/// failure is propagated with the decoder's message, and a decoded buffer
/// is subjected to the bounds check.
pub open spec fn load_spec(d: Result<PixelBuffer, String>, pos: Position) -> Result<
    PixelBuffer,
    ConversionError,
> {
    match d {
        Err(m) => Err(ConversionError::LodePNGError(m)),
        Ok(b) => check_dims_spec(b, pos),
    }
}

/// Decodes the PNG bytes and validates that the image placed at `pos`
/// fits within the canvas bound. On success the returned buffer is
/// well-formed and strictly inside the canvas.
pub fn image_to_bitmap(data: &[u8], pos: Position) -> (r: Result<PixelBuffer, ConversionError>)
    ensures
        r == load_spec(png_decode(data@), pos),
        r matches Ok(b) ==> b.wf() && pos.x + b.width < crate::MAX_X && pos.y + b.height
            < crate::MAX_Y,
{
    match decode24(data) {
        Err(m) => Err(ConversionError::LodePNGError(m)),
        Ok(b) => check_dims(b, pos),
    }
}

} // verus!
