//! The resizer: a pure function from source dimensions and optional bounds to
//! target dimensions.
//!
//! Policy, in precedence order: with no bounds given, the image is fitted
//! inside the terminal (one row is reserved for the prompt, and each remaining
//! row is worth two pixel rows), preserving aspect ratio and never upscaling;
//! with exactly one bound given, the other dimension is scaled to preserve
//! aspect ratio; with both given, the image is scaled to exactly those
//! dimensions, aspect ratio not preserved. A height bound is in terminal
//! cells, so it counts double in pixel rows.

use vstd::arithmetic::div_mod::{lemma_div_is_ordered, lemma_div_multiples_vanish};
use vstd::prelude::*;

verus! {

/// The largest dimensions that are at most (`nwidth`, `nheight`), keep the
/// aspect ratio of `width` x `height` by integer arithmetic (rounding down,
/// but never to zero), and pin whichever of the two bounds is the tighter.
pub open spec fn spec_fit_dimensions(width: int, height: int, nwidth: int, nheight: int) -> (
    int,
    int,
) {
    if nwidth * height <= width * nheight {
        let inter = height * nwidth / width;
        (nwidth, if inter < 1 { 1 } else { inter })
    } else {
        let inter = width * nheight / height;
        (if inter < 1 { 1 } else { inter }, nheight)
    }
}

/// What `resize` returns: the explicit bounds override the source dimensions
/// (a height bound doubled into pixel rows); with no bounds at all the
/// terminal supplies them; with both bounds present they are taken exactly,
/// otherwise the image is fitted to them with its aspect ratio kept.
pub open spec fn spec_resize(
    src_width: int,
    src_height: int,
    width: Option<u32>,
    height: Option<u32>,
    term_width: int,
    term_height: int,
) -> (int, int) {
    let pw = if width is Some {
        width.unwrap() as int
    } else {
        src_width
    };
    let ph = if height is Some {
        2 * (height.unwrap() as int)
    } else {
        src_height
    };
    if width is None && height is None {
        let w = term_width;
        let h = term_height - 1;
        let pw2 = if pw > w {
            w
        } else {
            pw
        };
        let ph2 = if ph > h {
            2 * h
        } else {
            ph
        };
        spec_fit_dimensions(src_width, src_height, pw2, ph2)
    } else if width is Some && height is Some {
        (pw, ph)
    } else {
        spec_fit_dimensions(src_width, src_height, pw, ph)
    }
}

/// The product of two u32 values fits in a u64.
proof fn lemma_u32_mul_fits_u64(a: u32, b: u32)
    ensures
        0 <= (a as int) * (b as int) <= u64::MAX,
{
    assert((a as int) * (b as int) <= 0xffff_ffff * 0xffff_ffff) by (nonlinear_arith)
        requires
            a <= 0xffff_ffffu32,
            b <= 0xffff_ffffu32,
    ;
}

/// In the branch that pins the width, the scaled height stays at most
/// `nheight`; symmetrically for the other branch. This keeps every fit inside
/// its bounds and inside u32.
proof fn lemma_fit_intermediate_bounded(width: int, height: int, nwidth: int, nheight: int)
    requires
        width >= 1,
        height >= 1,
        nwidth >= 0,
        nheight >= 0,
    ensures
        nwidth * height <= width * nheight ==> height * nwidth / width <= nheight,
        nwidth * height > width * nheight ==> width * nheight / height <= nwidth,
{
    if nwidth * height <= width * nheight {
        assert(height * nwidth == nwidth * height) by (nonlinear_arith);
        lemma_div_is_ordered(height * nwidth, width * nheight, width);
        assert(width * nheight == width * nheight) by (nonlinear_arith);
        lemma_div_multiples_vanish(nheight, width);
        assert((width * nheight) / width == nheight);
    } else {
        assert(width * nheight <= nwidth * height) by (nonlinear_arith)
            requires
                nwidth * height > width * nheight,
        ;
        lemma_div_is_ordered(width * nheight, nwidth * height, height);
        lemma_div_multiples_vanish(nwidth, height);
        assert(nwidth * height == height * nwidth) by (nonlinear_arith);
        assert((height * nwidth) / height == nwidth);
    }
}

/// Aspect-preserving fit of `width` x `height` into at most `nwidth` columns
/// and `nheight` pixel rows.
pub fn fit_dimensions(width: u32, height: u32, nwidth: u32, nheight: u32) -> (r: (u32, u32))
    requires
        width >= 1,
        height >= 1,
    ensures
        (r.0 as int, r.1 as int) == spec_fit_dimensions(
            width as int,
            height as int,
            nwidth as int,
            nheight as int,
        ),
{
    proof {
        lemma_u32_mul_fits_u64(width, nheight);
        lemma_u32_mul_fits_u64(nwidth, height);
        lemma_u32_mul_fits_u64(height, nwidth);
        lemma_fit_intermediate_bounded(
            width as int,
            height as int,
            nwidth as int,
            nheight as int,
        );
    }
    let ratio: u64 = (width as u64) * (nheight as u64);
    let nratio: u64 = (nwidth as u64) * (height as u64);
    if nratio <= ratio {
        let inter: u64 = (height as u64) * (nwidth as u64) / (width as u64);
        let scaled: u32 = if inter < 1 {
            1
        } else {
            inter as u32
        };
        (nwidth, scaled)
    } else {
        let inter: u64 = (width as u64) * (nheight as u64) / (height as u64);
        let scaled: u32 = if inter < 1 {
            1
        } else {
            inter as u32
        };
        (scaled, nheight)
    }
}

/// Target dimensions for an image of `src_width` x `src_height`, under the
/// optional bounds of the configuration and the terminal's dimensions.
pub fn resize(
    src_width: u32,
    src_height: u32,
    width: Option<u32>,
    height: Option<u32>,
    term_width: u16,
    term_height: u16,
) -> (r: (u32, u32))
    requires
        src_width >= 1,
        src_height >= 1,
        term_height >= 1,
        height is Some ==> height.unwrap() <= u32::MAX / 2,
    ensures
        (r.0 as int, r.1 as int) == spec_resize(
            src_width as int,
            src_height as int,
            width,
            height,
            term_width as int,
            term_height as int,
        ),
        width is Some && height is Some ==> r.0 == width.unwrap() && r.1 == 2 * height.unwrap(),
{
    let mut print_width = src_width;
    let mut print_height = src_height;
    if let Some(w) = width {
        print_width = w;
    }
    if let Some(h) = height {
        // Two pixel rows are printed per terminal cell, so an image with
        // twice the height fits.
        print_height = 2 * h;
    }
    match (width, height) {
        (None, None) => {
            let w = term_width as u32;
            // One row less, because the shell prompt after the command takes
            // a line, and repeated redraws flicker on the very last line.
            let h = (term_height - 1) as u32;
            if print_width > w {
                print_width = w;
            }
            if print_height > h {
                print_height = 2 * h;
            }
            fit_dimensions(src_width, src_height, print_width, print_height)
        },
        (Some(_), Some(_)) => (print_width, print_height),
        _ => fit_dimensions(src_width, src_height, print_width, print_height),
    }
}

/// Law: with no bounds given, an image that already fits inside the terminal
/// (its width within the columns, its height within two pixel rows per
/// remaining cell) comes back unchanged.
pub proof fn lemma_resize_no_bounds_unchanged(
    src_width: int,
    src_height: int,
    term_width: int,
    term_height: int,
)
    requires
        1 <= src_width <= term_width,
        term_height >= 1,
        1 <= src_height <= 2 * (term_height - 1),
    ensures
        spec_resize(src_width, src_height, None, None, term_width, term_height) == (
            src_width,
            src_height,
        ),
{
    let h = term_height - 1;
    let ph2: int = if src_height > h {
        2 * h
    } else {
        src_height
    };
    assert(src_height <= ph2);
    assert(src_width * src_height <= src_width * ph2) by (nonlinear_arith)
        requires
            src_height <= ph2,
            src_width >= 1,
    ;
    assert(src_height * src_width == src_width * src_height) by (nonlinear_arith);
    lemma_div_multiples_vanish(src_height, src_width);
    assert((src_width * src_height) / src_width == src_height);
}

/// Law: with no bounds given and a terminal of at least one column and two
/// rows, the result fits within the terminal's columns and within two pixel
/// rows per remaining cell.
pub proof fn lemma_resize_no_bounds_fits(
    src_width: int,
    src_height: int,
    term_width: int,
    term_height: int,
)
    requires
        src_width >= 1,
        src_height >= 1,
        term_width >= 1,
        term_height >= 2,
    ensures
        spec_resize(src_width, src_height, None, None, term_width, term_height).0 <= term_width,
        spec_resize(src_width, src_height, None, None, term_width, term_height).1 <= 2 * (
        term_height - 1),
{
    let w = term_width;
    let h = term_height - 1;
    let pw2: int = if src_width > w {
        w
    } else {
        src_width
    };
    let ph2: int = if src_height > h {
        2 * h
    } else {
        src_height
    };
    assert(1 <= pw2 <= term_width);
    assert(1 <= ph2 <= 2 * h);
    lemma_fit_intermediate_bounded(src_width, src_height, pw2, ph2);
}

} // verus!
