use vstd::prelude::*;
use crate::plan::TEXTURE_SIZE;

verus! {

/// The bytes of an RGBA8 image of `texels` pixels, each `pixel`, row by row.
pub open spec fn filled_bytes(texels: nat, pixel: Seq<u8>) -> Seq<u8> {
    Seq::new(4 * texels, |i: int| pixel[i % 4])
}

/// Relies on image::ImageBuffer::from_pixel, which allocates 4 bytes per
/// pixel (panicking where that size overflows `usize`) and sets every pixel
/// to `pixel`; `into_raw` hands the bytes over, row by row.
#[verifier::external_body]
fn filled_rgba(width: u32, height: u32, pixel: [u8; 4]) -> (r: Vec<u8>)
    requires
        4 * width * height <= usize::MAX,
    ensures
        r@ == filled_bytes((width * height) as nat, pixel@),
{
    image::ImageBuffer::<image::Rgba<u8>, Vec<u8>>::from_pixel(width, height, image::Rgba(pixel)).into_raw()
}

/// The content of a generated texture: every texel (255, `green`, 255, 255).
pub open spec fn texture_bytes(green: u8) -> Seq<u8> {
    Seq::new((4 * TEXTURE_SIZE * TEXTURE_SIZE) as nat, |i: int| if i % 4 == 1 { green } else { 255u8 })
}

/// Synthesizes the pixels of a generated texture, `TEXTURE_SIZE` texels
/// square, ready for upload.
pub fn texture_pixels(green: u8) -> (r: Vec<u8>)
    ensures
        r@ == texture_bytes(green),
{
    let pixel: [u8; 4] = [255, green, 255, 255];
    assert(4 * TEXTURE_SIZE * TEXTURE_SIZE <= usize::MAX);
    let r = filled_rgba(TEXTURE_SIZE, TEXTURE_SIZE, pixel);
    proof {
        assert(pixel@ == seq![255u8, green, 255u8, 255u8]);
        assert(r@ =~= texture_bytes(green));
    }
    r
}

} // verus!
