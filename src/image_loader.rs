//! Decoded texture images: rows of 8-bit R, G, B samples, top row first.
use vstd::prelude::*;

verus! {

#[verifier::external_type_specification]
#[verifier::external_body]
pub struct ExImageError(image::ImageError);

/// Width, height and pixel bytes of the RGB8 image that `bytes` decode to,
/// or `None` where they decode to no image.
pub uninterp spec fn decoded_rgb8(bytes: Seq<u8>) -> Option<(u32, u32, Seq<u8>)>;

/// Relies on image::guess_format, which reads the format from the leading
/// bytes against the crate's built-in signatures, on
/// image::load_from_memory_with_format, which decodes them with that format's
/// built-in decoder, and on DynamicImage::to_rgb8 and ImageBuffer::into_raw,
/// which give the pixels as rows of R, G, B bytes; an image buffer holds at
/// least three bytes for each of its pixels.
#[verifier::external_body]
fn decode_rgb8(bytes: &[u8]) -> (r: Result<(u32, u32, Vec<u8>), image::ImageError>)
    ensures
        match r {
            Ok((w, h, px)) => decoded_rgb8(bytes@) == Some((w, h, px@)) && px@.len() >= 3 * w * h,
            Err(_) => decoded_rgb8(bytes@) is None,
        },
{
    let format = image::guess_format(bytes)?;
    let rgb = image::load_from_memory_with_format(bytes, format)?.to_rgb8();
    let (w, h) = rgb.dimensions();
    Ok((w, h, rgb.into_raw()))
}

/// Why a texture image could not be had.
#[derive(Clone, Copy, Debug, PartialEq, Eq, Structural)]
pub enum TextureError {
    /// The bytes hold no image in a format that can be decoded.
    Undecodable,
}

/// The texel at column `x`, row `y` of a `w` by `h` image whose samples are
/// `rgb`; `None` outside the image.
pub open spec fn texel_at(w: nat, h: nat, rgb: Seq<u8>, x: nat, y: nat) -> Option<(u8, u8, u8)> {
    if x < w && y < h {
        let o = (3 * (y * w + x)) as int;
        Some((rgb[o], rgb[o + 1], rgb[o + 2]))
    } else {
        None
    }
}

pub struct ImageTextureData {
    pub width: u32,
    pub height: u32,
    /// Three bytes per pixel: R, G, B.
    pub rgb: Vec<u8>,
}

impl ImageTextureData {
    pub open spec fn wf(&self) -> bool {
        self.rgb@.len() == 3 * self.width * self.height
    }

    /// `self` is the image that `bytes` decode to.
    pub open spec fn decodes(&self, bytes: Seq<u8>) -> bool {
        decoded_rgb8(bytes) matches Some((w, h, px)) && self.width == w && self.height == h
            && self.rgb@ == px.subrange(0, 3 * w * h)
    }

    /// Decodes an encoded image (PNG, JPEG) to RGB8.
    pub fn load_rgb8(bytes: &[u8]) -> (r: Result<ImageTextureData, TextureError>)
        ensures
            r is Err <==> decoded_rgb8(bytes@) is None,
            r matches Ok(d) ==> d.wf() && d.decodes(bytes@),
            r matches Err(e) ==> e == TextureError::Undecodable,
    {
        match decode_rgb8(bytes) {
            Ok((width, height, raw)) => {
                let mut rgb = raw;
                let raw_len = rgb.len();
                let len: usize = if width == 0 || height == 0 {
                    0
                } else {
                    let w = width as usize;
                    let h = height as usize;
                    assert(3 * w <= 3 * w * h <= raw_len) by (nonlinear_arith)
                        requires
                            h >= 1,
                            3 * w * h <= raw_len,
                    ;
                    3 * w * h
                };
                assert(len == 3 * width * height) by (nonlinear_arith)
                    requires
                        width == 0 || height == 0 ==> len == 0,
                        width != 0 && height != 0 ==> len == 3 * width * height,
                ;
                rgb.truncate(len);
                Ok(ImageTextureData { width, height, rgb })
            },
            Err(_) => Err(TextureError::Undecodable),
        }
    }

    /// The texel at column `x`, row `y`; `None` outside the image.
    pub fn pixel_data(image: &ImageTextureData, x: u32, y: u32) -> (r: Option<(u8, u8, u8)>)
        requires
            image.wf(),
        ensures
            r == texel_at(image.width as nat, image.height as nat, image.rgb@, x as nat, y as nat),
    {
        if x >= image.width || y >= image.height {
            return None;
        }
        let n = image.rgb.len();
        let w = image.width as usize;
        let h = image.height as usize;
        proof {
            assert(y * w <= y * w + x && (y * w + x) * 3 + 2 < n) by (nonlinear_arith)
                requires
                    x < w,
                    y < h,
                    n == 3 * w * h,
            ;
        }
        let idx = (y as usize * w + x as usize) * 3;
        Some((image.rgb[idx], image.rgb[idx + 1], image.rgb[idx + 2]))
    }
}

} // verus!
