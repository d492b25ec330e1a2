use vstd::prelude::*;
use crate::crypto::{sha256, sha256_of};
use crate::delivery::push_all;

verus! {

/// Side of a preview thumbnail, in pixels.
pub const THUMB_SIZE_PX: u32 = 75;

/// The largest centered square of a `width` × `height` image, as
/// `(x, y, side, side)`; an odd margin leaves the extra pixel after the square.
pub open spec fn centered_square_spec(width: u32, height: u32) -> (u32, u32, u32, u32) {
    if width < height {
        (0, ((height - width) / 2) as u32, width, width)
    } else {
        (((width - height) / 2) as u32, 0, height, height)
    }
}

/// Computes the crop that cuts the largest centered square from an image.
pub fn centered_square(width: u32, height: u32) -> (r: (u32, u32, u32, u32))
    ensures
        r == centered_square_spec(width, height),
        r.0 + r.2 <= width,
        r.1 + r.3 <= height,
        r.2 == r.3,
{
    if width < height {
        (0, (height - width) / 2, width, width)
    } else {
        ((width - height) / 2, 0, height, height)
    }
}

/// The journal of the preview variant: the digest of the source image, then
/// the digest of the encoded thumbnail.
pub fn thumbnail_journal(image_bytes: &[u8], thumbnail_png: &[u8]) -> (r: Vec<u8>)
    ensures
        r@ == sha256_of(image_bytes@) + sha256_of(thumbnail_png@),
        r@.len() == 64,
{
    let mut journal = sha256(image_bytes);
    let digest = sha256(thumbnail_png);
    push_all(&mut journal, digest.as_slice());
    journal
}

} // verus!
