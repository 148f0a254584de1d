//! Terminal colours and the colour-resolution policy: every pixel is rendered
//! either with its own RGB value (quantized to the 256-colour palette when the
//! terminal has no truecolor support) or, when fully transparent, with one of
//! the two fixed checkerboard tones.

use vstd::prelude::*;

verus! {

/// A terminal colour: either a 24-bit RGB value (truecolor) or an index into
/// the 256-colour ANSI palette.
#[derive(Clone, Copy, PartialEq, Eq, Structural, Debug)]
pub enum Color {
    Rgb(u8, u8, u8),
    Ansi256(u8),
}

/// One RGBA pixel; an alpha of 0 means fully transparent.
#[derive(Clone, Copy, PartialEq, Eq, Structural, Debug)]
pub struct Pixel {
    pub r: u8,
    pub g: u8,
    pub b: u8,
    pub a: u8,
}

/// The index in the 256-colour ANSI palette that approximates an RGB colour.
/// The exact palette mapping is the business of the `ansi_colours` crate; the
/// contracts only rely on it being a function of the three channels.
pub uninterp spec fn ansi256_of(r: u8, g: u8, b: u8) -> u8;

/// Relies on `ansi_colours::ansi256_from_rgb`: a pure palette lookup whose
/// result depends on the three RGB channels alone.
#[verifier::external_body]
fn ansi256_from_rgb(r: u8, g: u8, b: u8) -> (idx: u8)
    ensures
        idx == ansi256_of(r, g, b),
{
    ansi_colours::ansi256_from_rgb((r, g, b))
}

/// The colour an RGB triple is rendered as, given the terminal's colour depth.
pub open spec fn resolved_color(r: u8, g: u8, b: u8, truecolor: bool) -> Color {
    if truecolor {
        Color::Rgb(r, g, b)
    } else {
        Color::Ansi256(ansi256_of(r, g, b))
    }
}

/// The darker of the two checkerboard tones drawn behind transparent pixels.
pub open spec fn checkerboard_dark() -> (u8, u8, u8) {
    (102u8, 102u8, 102u8)
}

/// The lighter of the two checkerboard tones drawn behind transparent pixels.
pub open spec fn checkerboard_light() -> (u8, u8, u8) {
    (153u8, 153u8, 153u8)
}

/// The synthetic tone for a transparent pixel: the dark tone where the row and
/// column parities match, the light tone where they differ.
pub open spec fn spec_transparency_color(row: int, col: int, truecolor: bool) -> Color {
    if row % 2 == col % 2 {
        resolved_color(checkerboard_dark().0, checkerboard_dark().1, checkerboard_dark().2, truecolor)
    } else {
        resolved_color(
            checkerboard_light().0,
            checkerboard_light().1,
            checkerboard_light().2,
            truecolor,
        )
    }
}

/// Whether a pixel counts as transparent: its alpha channel is zero.
pub fn is_pixel_transparent(pixel: Pixel) -> (t: bool)
    ensures
        t == (pixel.a == 0),
{
    pixel.a == 0
}

/// The checkerboard substitute colour for a transparent pixel at the given
/// position.
pub fn get_transparency_color(row: u32, col: u32, truecolor: bool) -> (c: Color)
    ensures
        c == spec_transparency_color(row as int, col as int, truecolor),
{
    if row % 2 == col % 2 {
        if truecolor {
            Color::Rgb(102, 102, 102)
        } else {
            Color::Ansi256(ansi256_from_rgb(102, 102, 102))
        }
    } else {
        if truecolor {
            Color::Rgb(153, 153, 153)
        } else {
            Color::Ansi256(ansi256_from_rgb(153, 153, 153))
        }
    }
}

/// The colour of an opaque pixel: its own RGB channels, quantized to the
/// palette when truecolor is unavailable.
pub fn get_color_from_pixel(pixel: Pixel, truecolor: bool) -> (c: Color)
    ensures
        c == resolved_color(pixel.r, pixel.g, pixel.b, truecolor),
{
    if truecolor {
        Color::Rgb(pixel.r, pixel.g, pixel.b)
    } else {
        Color::Ansi256(ansi256_from_rgb(pixel.r, pixel.g, pixel.b))
    }
}

/// The colour of one half of a terminal cell, `None` meaning the half is left
/// transparent: an opaque pixel keeps its own colour, a transparent one is
/// either skipped (transparency pass-through) or replaced by a checkerboard
/// tone.
pub open spec fn spec_half_color(
    p: Pixel,
    row: int,
    col: int,
    transparent: bool,
    truecolor: bool,
) -> Option<Color> {
    if p.a == 0 {
        if transparent {
            None
        } else {
            Some(spec_transparency_color(row, col, truecolor))
        }
    } else {
        Some(resolved_color(p.r, p.g, p.b, truecolor))
    }
}

/// Resolve the colour of one half-cell from the pixel at the given position.
pub fn half_color(p: Pixel, row: u32, col: u32, transparent: bool, truecolor: bool) -> (c: Option<
    Color,
>)
    ensures
        c == spec_half_color(p, row as int, col as int, transparent, truecolor),
{
    if is_pixel_transparent(p) {
        if transparent {
            None
        } else {
            Some(get_transparency_color(row, col, truecolor))
        }
    } else {
        Some(get_color_from_pixel(p, truecolor))
    }
}

/// Law: a fully opaque pixel round-trips losslessly through the truecolor
/// path, and maps on the 256-colour path to the palette index determined by
/// its RGB channels alone.
pub proof fn lemma_opaque_color_roundtrip(p: Pixel, row: int, col: int, transparent: bool)
    requires
        p.a == 255,
    ensures
        spec_half_color(p, row, col, transparent, true) == Some(Color::Rgb(p.r, p.g, p.b)),
        spec_half_color(p, row, col, transparent, false) == Some(
            Color::Ansi256(ansi256_of(p.r, p.g, p.b)),
        ),
{
}

/// Law: a fully transparent pixel rendered without transparency pass-through
/// takes one of exactly two fixed checkerboard tones, chosen solely by whether
/// the parities of its row and column match.
pub proof fn lemma_checkerboard_tones(p: Pixel, row: int, col: int, truecolor: bool)
    requires
        p.a == 0,
    ensures
        spec_half_color(p, row, col, false, truecolor) == Some(
            if row % 2 == col % 2 {
                resolved_color(102u8, 102u8, 102u8, truecolor)
            } else {
                resolved_color(153u8, 153u8, 153u8, truecolor)
            },
        ),
{
}

/// Law: a fully transparent pixel rendered with transparency pass-through gets
/// no colour at all.
pub proof fn lemma_transparent_passthrough(p: Pixel, row: int, col: int, truecolor: bool)
    requires
        p.a == 0,
    ensures
        spec_half_color(p, row, col, true, truecolor) is None,
{
}

} // verus!
