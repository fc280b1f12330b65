//! Simple tools for dealing with masks

use crate::error::VegasLatticeError;
use crate::util::floor_mod_i128;
use vstd::prelude::*;

verus! {

/// A mask represents a 2D image that can be used to filter out points.
///
/// The mask is a grid of alpha values in row-major order, with row 0 at the
/// visual top, together with a pixels-per-unit scale. Planar coordinates map
/// to a pixel (the grid tiles the plane), and the pixel's alpha over 255 is
/// the probability of keeping a point there.
#[derive(Debug)]
pub struct Mask {
    width: usize,
    height: usize,
    alphas: Vec<u8>,
    ppu: i64,
}

/// What a mask is to the contracts: the grid dimensions, the alphas in
/// row-major order, and the scale.
pub ghost struct MaskView {
    pub width: int,
    pub height: int,
    pub alphas: Seq<u8>,
    pub ppu: int,
}

impl View for Mask {
    type V = MaskView;

    closed spec fn view(&self) -> MaskView {
        MaskView {
            width: self.width as int,
            height: self.height as int,
            alphas: self.alphas@,
            ppu: self.ppu as int,
        }
    }
}

impl MaskView {
    /// The mask invariant: positive dimensions and scale, and exactly one
    /// alpha per pixel.
    pub open spec fn wf(self) -> bool {
        &&& 1 <= self.width
        &&& 1 <= self.height
        &&& 1 <= self.ppu
        &&& self.alphas.len() == self.width * self.height
    }

    /// The alpha under the planar point `(x, y)`: the point scales to pixel
    /// space, wraps into the grid, and the row index is flipped because row 0
    /// is visually the top.
    pub open spec fn alpha_at(self, x: int, y: int) -> int {
        let i = (x * self.ppu) % self.width;
        let j = self.height - 1 - ((y * self.ppu) % self.height);
        self.alphas[j * self.width + i] as int
    }
}

impl Mask {
    /// Create a new mask from an alpha grid and a pixels-per-unit scale. The
    /// dimensions and the scale must be positive and the grid must hold
    /// exactly one alpha per pixel; anything else cannot have come from a
    /// well-read image and fails with `IoError`.
    pub fn try_new(width: usize, height: usize, alphas: Vec<u8>, ppu: i64) -> (r:
        core::result::Result<Self, VegasLatticeError>)
        ensures
            r is Ok <==> {
                &&& 1 <= width
                &&& 1 <= height
                &&& 1 <= ppu
                &&& alphas@.len() == (width as int) * (height as int)
            },
            r matches Ok(m) ==> m@ == (MaskView {
                width: width as int,
                height: height as int,
                alphas: alphas@,
                ppu: ppu as int,
            }) && m@.wf(),
            r matches Err(e) ==> e == VegasLatticeError::IoError,
    {
        proof {
            assert(0 <= (width as int) * (height as int) <= u128::MAX as int)
                by (nonlinear_arith)
                requires
                    0 <= width as int <= u64::MAX as int,
                    0 <= height as int <= u64::MAX as int,
            ;
        }
        if width < 1 || height < 1 || ppu < 1 {
            return Err(VegasLatticeError::IoError);
        }
        if (alphas.len() as u128) != (width as u128) * (height as u128) {
            return Err(VegasLatticeError::IoError);
        }
        Ok(Mask { width, height, alphas, ppu })
    }

    /// Computes whether to keep a site or not given the planar coordinates
    /// of the site and a random number generator: true with probability
    /// alpha/255 for the pixel under the point. An opaque pixel always keeps
    /// the site; a fully transparent one never does.
    pub fn keep(&self, x: i64, y: i64, rng: &mut rand::rngs::StdRng) -> (r: bool)
        requires
            self@.wf(),
        ensures
            self@.alpha_at(x as int, y as int) == 255 ==> r,
            self@.alpha_at(x as int, y as int) == 0 ==> !r,
    {
        proof {
            assert(-0x4000_0000_0000_0000_0000_0000_0000_0000 <= (x as int) * (self@.ppu)
                <= 0x4000_0000_0000_0000_0000_0000_0000_0000
                && -0x4000_0000_0000_0000_0000_0000_0000_0000 <= (y as int) * (self@.ppu)
                <= 0x4000_0000_0000_0000_0000_0000_0000_0000) by (nonlinear_arith)
                requires
                    i64::MIN as int <= x as int <= i64::MAX as int,
                    i64::MIN as int <= y as int <= i64::MAX as int,
                    0 <= self@.ppu <= i64::MAX as int,
            ;
        }
        let i = floor_mod_i128((x as i128) * (self.ppu as i128), self.width as i128) as usize;
        let j0 = floor_mod_i128((y as i128) * (self.ppu as i128), self.height as i128) as usize;
        let j = self.height - 1 - j0;
        proof {
            assert((j as int) * (self.width as int) + (i as int) < (self.width as int) * (
            self.height as int)) by (nonlinear_arith)
                requires
                    0 <= (j as int) <= (self.height as int) - 1,
                    0 <= (i as int) < (self.width as int),
                    1 <= self.width as int,
                    1 <= self.height as int,
            ;
            assert((j as int) * (self.width as int) + (i as int) < self.alphas@.len());
        }
        // the grid length bounds the index inside the machine's word
        let grid_len = self.alphas.len();
        proof {
            assert((j as int) * (self.width as int) + (i as int) < grid_len);
        }
        let alpha = self.alphas[j * self.width + i];
        let shoot = crate::rng::draw_below(rng, 255);
        shoot < alpha as u32
    }
}

} // verus!
