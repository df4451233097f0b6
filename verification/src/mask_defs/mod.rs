//! Errors of the mask renderer, and reading its stroke colors.

pub mod paint;

use vstd::prelude::*;
use vstd::string::*;
use crate::chars::{decimal, push_decimal};

verus! {

#[derive(Debug)]
pub enum MaskRenderError {
    InvalidSize { width: u32, height: u32 },
    InvalidStrokeColor(String),
}

impl MaskRenderError {
    /// The error as text.
    pub fn to_string(&self) -> (s: String)
        ensures
            s@ == (match self {
                MaskRenderError::InvalidSize { width, height } => "invalid pixmap size "@ + decimal(
                    *width as nat,
                ) + "x"@ + decimal(*height as nat),
                MaskRenderError::InvalidStrokeColor(color) => "invalid stroke color: "@ + color@,
            }),
    {
        let mut s = String::new();
        match self {
            MaskRenderError::InvalidSize { width, height } => {
                s.append("invalid pixmap size ");
                push_decimal(&mut s, *width);
                s.append("x");
                push_decimal(&mut s, *height);
            },
            MaskRenderError::InvalidStrokeColor(color) => {
                s.append("invalid stroke color: ");
                s.append(color.as_str());
            },
        }
        s
    }
}

#[verifier::external_type_specification]
#[verifier::external_body]
pub struct ExPixmap(tiny_skia::Pixmap);

/// The sizes `tiny_skia::Pixmap::new` accepts: both sides nonzero, a row of at
/// most `i32::MAX` bytes, and a byte count that fits in `usize`.
pub open spec fn pixmap_size_fits(width: u32, height: u32) -> bool {
    &&& width > 0
    &&& height > 0
    &&& width * 4 <= i32::MAX
    &&& (height - 1) * (width * 4) + width * 4 <= usize::MAX
}

/// The width and height that a pixmap holds (what `Pixmap::width` and
/// `Pixmap::height` give back).
pub uninterp spec fn pixmap_size(p: tiny_skia::Pixmap) -> (u32, u32);

/// The premultiplied RGBA bytes of a pixmap, row by row (what `Pixmap::data`
/// gives back).
pub uninterp spec fn pixmap_bytes(p: tiny_skia::Pixmap) -> Seq<u8>;

/// `tiny_skia::Pixmap::new`: a fully transparent pixmap of the given size,
/// where the size is accepted: it stores exactly that size, and its
/// `width * height * 4` bytes are all 0. An allocation that fails aborts
/// there, and is not stated.
#[verifier::external_body]
fn pixmap_new(width: u32, height: u32) -> (r: Option<tiny_skia::Pixmap>)
    requires
        pixmap_size_fits(width, height) ==> (height - 1) * (width * 4) + width * 4 <= isize::MAX,
    ensures
        r is Some <==> pixmap_size_fits(width, height),
        r matches Some(p) ==> pixmap_size(p) == (width, height),
        r matches Some(p) ==> pixmap_bytes(p).len() == width * height * 4,
        r matches Some(p) ==> forall|i: int|
            0 <= i < pixmap_bytes(p).len() ==> #[trigger] pixmap_bytes(p)[i] == 0,
{
    tiny_skia::Pixmap::new(width, height)
}

/// A new pixmap for a mask, or the error that names the size it refused.
pub fn new_pixmap(width: u32, height: u32) -> (r: Result<tiny_skia::Pixmap, MaskRenderError>)
    requires
        pixmap_size_fits(width, height) ==> (height - 1) * (width * 4) + width * 4 <= isize::MAX,
    ensures
        r is Ok <==> pixmap_size_fits(width, height),
        r matches Ok(p) ==> pixmap_size(p) == (width, height),
        r matches Ok(p) ==> pixmap_bytes(p).len() == width * height * 4,
        r matches Ok(p) ==> forall|i: int|
            0 <= i < pixmap_bytes(p).len() ==> #[trigger] pixmap_bytes(p)[i] == 0,
        r matches Err(e) ==> e == (MaskRenderError::InvalidSize { width, height }),
{
    match pixmap_new(width, height) {
        Some(p) => Ok(p),
        None => Err(MaskRenderError::InvalidSize { width, height }),
    }
}

} // verus!
