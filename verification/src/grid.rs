//! The pixel grid the compositor consumes: an immutable, row-major 2D array of
//! RGBA pixels.

use crate::color::Pixel;
use vstd::arithmetic::div_mod::{
    lemma_div_multiples_vanish, lemma_fundamental_div_mod, lemma_mod_multiples_basic,
};
use vstd::prelude::*;

verus! {

/// A decoded image: `width * height` RGBA pixels in row-major order.
#[derive(Clone, Debug)]
pub struct PixelGrid {
    pub width: u32,
    pub height: u32,
    pub data: Vec<Pixel>,
}

/// The product of two u32 values fits in a u64.
proof fn lemma_u32_mul_fits_u64(a: u32, b: u32)
    ensures
        0 <= (a as int) * (b as int) <= u64::MAX,
{
    assert((a as int) * (b as int) <= 0xffff_ffff * 0xffff_ffff) by (nonlinear_arith)
        requires
            a <= 0xffff_ffffu32,
            b <= 0xffff_ffffu32,
    ;
}

impl PixelGrid {
    /// Well-formedness: the flat pixel vector holds exactly one pixel per
    /// coordinate.
    pub open spec fn wf(self) -> bool {
        self.data@.len() == (self.width as int) * (self.height as int)
    }

    /// The pixel at a coordinate, row-major.
    pub open spec fn pixel_at(self, row: int, col: int) -> Pixel {
        self.data@[row * (self.width as int) + col]
    }

    /// Build a grid from a pixel vector; rejects a vector whose length does
    /// not match the dimensions.
    pub fn from_pixels(width: u32, height: u32, data: Vec<Pixel>) -> (out: Option<PixelGrid>)
        ensures
            (out is Some) <==> data@.len() == (width as int) * (height as int),
            out is Some ==> out.unwrap() == (PixelGrid { width, height, data }),
            out is Some ==> out.unwrap().wf(),
    {
        proof {
            lemma_u32_mul_fits_u64(width, height);
        }
        let n = data.len();
        let wh: u64 = (width as u64) * (height as u64);
        if n as u64 == wh {
            Some(PixelGrid { width, height, data })
        } else {
            None
        }
    }

    /// Build a grid from flat RGBA bytes, four per pixel in row-major order;
    /// rejects a byte vector whose length does not match the dimensions.
    pub fn from_rgba_bytes(width: u32, height: u32, bytes: &Vec<u8>) -> (out: Option<PixelGrid>)
        ensures
            (out is Some) <==> bytes@.len() == 4 * (width as int) * (height as int),
            out is Some ==> out.unwrap().width == width && out.unwrap().height == height
                && out.unwrap().wf(),
            out is Some ==> forall|i: int|
                0 <= i < (width as int) * (height as int) ==> out.unwrap().data@[i] == (Pixel {
                    r: bytes@[4 * i],
                    g: bytes@[4 * i + 1],
                    b: bytes@[4 * i + 2],
                    a: bytes@[4 * i + 3],
                }),
    {
        proof {
            lemma_u32_mul_fits_u64(width, height);
        }
        let n = bytes.len();
        let wh: u64 = (width as u64) * (height as u64);
        let ghost wh_int: int = (width as int) * (height as int);
        proof {
            assert(4 * (width as int) * (height as int) == 4 * wh_int) by (nonlinear_arith)
                requires
                    wh_int == (width as int) * (height as int),
            ;
        }
        if n % 4 != 0 {
            proof {
                lemma_mod_multiples_basic(wh_int, 4);
                assert(wh_int * 4 == 4 * wh_int) by (nonlinear_arith);
            }
            return None;
        }
        let count = n / 4;
        if count as u64 != wh {
            proof {
                lemma_fundamental_div_mod(n as int, 4);
                lemma_div_multiples_vanish(wh_int, 4);
            }
            return None;
        }
        proof {
            lemma_fundamental_div_mod(n as int, 4);
        }
        let mut data: Vec<Pixel> = Vec::new();
        let mut i: usize = 0;
        while i < count
            invariant
                i <= count,
                bytes@.len() == 4 * (count as int),
                4 * (count as int) <= usize::MAX,
                data@.len() == i as int,
                forall|j: int|
                    0 <= j < i as int ==> data@[j] == (Pixel {
                        r: bytes@[4 * j],
                        g: bytes@[4 * j + 1],
                        b: bytes@[4 * j + 2],
                        a: bytes@[4 * j + 3],
                    }),
            decreases count - i,
        {
            let p = Pixel {
                r: bytes[4 * i],
                g: bytes[4 * i + 1],
                b: bytes[4 * i + 2],
                a: bytes[4 * i + 3],
            };
            data.push(p);
            i = i + 1;
        }
        Some(PixelGrid { width, height, data })
    }

    /// The pixel at (row, col).
    pub fn get(&self, row: u32, col: u32) -> (p: Pixel)
        requires
            self.wf(),
            row < self.height,
            col < self.width,
        ensures
            p == self.pixel_at(row as int, col as int),
    {
        proof {
            assert((row as int) * (self.width as int) + (col as int) < (self.width as int) * (
            self.height as int)) by (nonlinear_arith)
                requires
                    row < self.height,
                    col < self.width,
            ;
        }
        let _len = self.data.len();
        let idx: usize = (row as usize) * (self.width as usize) + (col as usize);
        self.data[idx]
    }
}

} // verus!
