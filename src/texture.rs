//! The integer side of textures: image textures over decoded texels, and the
//! cell parity that picks a checker pattern's sub-texture.
use vstd::prelude::*;
use vstd::arithmetic::div_mod::lemma_mod_multiples_vanish;
use crate::image_loader::{decoded_rgb8, texel_at, ImageTextureData, TextureError};

verus! {

/// Whether the checker cell `(x, y, z)` (the floors of the scaled
/// coordinates) shows the even sub-texture: the sum of its coordinates is even.
pub fn checker_cell_is_even(x: i32, y: i32, z: i32) -> (r: bool)
    ensures
        r == ((x + y + z) % 2 == 0),
{
    // Shifting by 2^33 keeps the sum non-negative without changing its parity.
    let shifted: u64 = (x as i64 + y as i64 + z as i64 + 8589934592i64) as u64;
    proof {
        lemma_mod_multiples_vanish(4294967296, x + y + z, 2);
    }
    shifted % 2 == 0
}

/// A texture that samples a decoded image.
pub struct ImageTexture {
    data: ImageTextureData,
}

impl View for ImageTexture {
    /// Width, height and the R, G, B bytes of the rows, top row first.
    type V = (nat, nat, Seq<u8>);

    closed spec fn view(&self) -> Self::V {
        (self.data.width as nat, self.data.height as nat, self.data.rgb@)
    }
}

impl ImageTexture {
    #[verifier::type_invariant]
    spec fn inv(&self) -> bool {
        self.data.wf()
    }

    /// The texture over the image that `bytes` encode; an error where they
    /// encode none.
    pub fn new(bytes: &[u8]) -> (r: Result<ImageTexture, TextureError>)
        ensures
            r is Err <==> decoded_rgb8(bytes@) is None,
            r matches Ok(t) ==> decoded_rgb8(bytes@) matches Some((w, h, px)) && t@.0 == w
                && t@.1 == h && t@.2 == px.subrange(0, 3 * w * h),
            r matches Err(e) ==> e == TextureError::Undecodable,
    {
        match ImageTextureData::load_rgb8(bytes) {
            Ok(data) => Ok(ImageTexture { data }),
            Err(e) => Err(e),
        }
    }

    /// The decoded image.
    pub fn data(&self) -> (r: &ImageTextureData)
        ensures
            r.wf(),
            r.width == self@.0,
            r.height == self@.1,
            r.rgb@ == self@.2,
    {
        proof {
            use_type_invariant(self);
        }
        &self.data
    }

    /// Whether the image has no pixels, so that nothing can be sampled.
    pub fn is_blank(&self) -> (r: bool)
        ensures
            r == (self@.0 == 0 || self@.1 == 0),
    {
        self.data.width == 0 || self.data.height == 0
    }

    /// The texel at column `i`, row `j`; `None` outside the image.
    pub fn texel(&self, i: u32, j: u32) -> (r: Option<(u8, u8, u8)>)
        ensures
            r == texel_at(self@.0, self@.1, self@.2, i as nat, j as nat),
    {
        proof {
            use_type_invariant(self);
        }
        ImageTextureData::pixel_data(&self.data, i, j)
    }
}

} // verus!
