//! Texture data for the renderer: the pixels of an image as RGBA quadruples.

use vstd::prelude::*;

verus! {

/// An image of the `image` crate, in whatever pixel format it was decoded to.
#[verifier::external_type_specification]
#[verifier::external_body]
pub struct ExDynamicImage(image::DynamicImage);

/// The bytes of `image` as an 8-bit RGBA image: what `to_rgba8` followed by
/// `into_raw` gives for it.
pub uninterp spec fn rgba_bytes_of(image: image::DynamicImage) -> Seq<u8>;

/// Calls `DynamicImage::to_rgba8` and then `ImageBuffer::into_raw`. The result
/// is a function of the image alone, and that is all that is claimed of it: an
/// image that was wrapped around a longer buffer hands that buffer out whole,
/// so not even the length is known.
#[verifier::external_body]
fn rgba_bytes(image: &image::DynamicImage) -> (bytes: Vec<u8>)
    ensures
        bytes@ == rgba_bytes_of(*image),
{
    image.to_rgba8().into_raw()
}

/// `pixels` holds `bytes` in groups of four, in order.
pub open spec fn groups_of_four(bytes: Seq<u8>, pixels: Seq<[u8; 4]>) -> bool {
    &&& bytes.len() == 4 * pixels.len()
    &&& forall|i: int, c: int|
        0 <= i < pixels.len() && 0 <= c < 4 ==> (#[trigger] pixels[i][c]) == bytes[4 * i + c]
}

/// Groups a byte buffer into RGBA pixels, four bytes each. `None` if the bytes
/// do not fall into groups of four.
pub fn group_rgba(bytes: &Vec<u8>) -> (pixels: Option<Vec<[u8; 4]>>)
    ensures
        pixels is Some <==> bytes@.len() % 4 == 0,
        pixels matches Some(p) ==> groups_of_four(bytes@, p@),
{
    if bytes.len() % 4 != 0 {
        return None;
    }
    let count = bytes.len() / 4;
    let mut pixels: Vec<[u8; 4]> = Vec::new();
    let mut i: usize = 0;
    while i < count
        invariant
            bytes.len() == 4 * count,
            i <= count,
            pixels@.len() == i,
            forall|k: int, c: int|
                0 <= k < i && 0 <= c < 4 ==> (#[trigger] pixels@[k][c]) == bytes@[4 * k + c],
        decreases count - i,
    {
        let pixel = [bytes[4 * i], bytes[4 * i + 1], bytes[4 * i + 2], bytes[4 * i + 3]];
        pixels.push(pixel);
        i += 1;
    }
    Some(pixels)
}

/// The pixels of `image` as RGBA quadruples, row by row. `None` if the bytes
/// of the image do not fall into groups of four.
pub fn diffuse_pixels(image: &image::DynamicImage) -> (pixels: Option<Vec<[u8; 4]>>)
    ensures
        pixels is Some <==> rgba_bytes_of(*image).len() % 4 == 0,
        pixels matches Some(p) ==> groups_of_four(rgba_bytes_of(*image), p@),
{
    let bytes = rgba_bytes(image);
    group_rgba(&bytes)
}

} // verus!
