//! The exact bytes of every terminal operation the compositor emits: cursor
//! moves and colour changes as ANSI/SGR escape sequences, half-block glyphs as
//! UTF-8, and line breaks. The byte sequences are stated as spec functions;
//! producing them is delegated to the `crossterm` and `termcolor` crates
//! through trusted wrappers whose contracts pin the bytes exactly.

use crate::color::Color;
use vstd::prelude::*;

verus! {

/// The decimal digits of `n`, most significant first, no leading zeros
/// (a single `0` for zero).
pub open spec fn dec_digits(n: nat) -> Seq<u8>
    decreases n,
{
    if n < 10 {
        seq![(48 + n) as u8]
    } else {
        dec_digits(n / 10) + seq![(48 + n % 10) as u8]
    }
}

/// ESC `[`, the control sequence introducer.
pub open spec fn csi() -> Seq<u8> {
    seq![27u8, 91u8]
}

/// Absolute cursor move to (column, row), both zero-based:
/// `ESC [ row+1 ; col+1 H`.
pub open spec fn move_to_bytes(col: u16, row: u16) -> Seq<u8> {
    csi() + dec_digits((row + 1) as nat) + seq![59u8] + dec_digits((col + 1) as nat) + seq![72u8]
}

/// Cursor move to the start of the line `n` lines up: `ESC [ n F`.
pub open spec fn prev_line_bytes(n: u16) -> Seq<u8> {
    csi() + dec_digits(n as nat) + seq![70u8]
}

/// Cursor move `n` columns to the right: `ESC [ n C`.
pub open spec fn move_right_bytes(n: u16) -> Seq<u8> {
    csi() + dec_digits(n as nat) + seq![67u8]
}

/// Colour and attribute reset: `ESC [ 0 m`.
pub open spec fn reset_bytes() -> Seq<u8> {
    seq![27u8, 91u8, 48u8, 109u8]
}

/// One colour as an SGR sequence: `ESC [ 38 ; 2 ; r ; g ; b m` for an RGB
/// foreground, `ESC [ 38 ; 5 ; n m` for a palette foreground, and the same
/// with 48 in place of 38 for backgrounds.
pub open spec fn color_bytes(c: Color, foreground: bool) -> Seq<u8> {
    let ground = if foreground {
        seq![51u8, 56u8]
    } else {
        seq![52u8, 56u8]
    };
    match c {
        Color::Rgb(r, g, b) => csi() + ground + seq![59u8, 50u8, 59u8] + dec_digits(r as nat)
            + seq![59u8] + dec_digits(g as nat) + seq![59u8] + dec_digits(b as nat) + seq![109u8],
        Color::Ansi256(n) => csi() + ground + seq![59u8, 53u8, 59u8] + dec_digits(n as nat)
            + seq![109u8],
    }
}

/// A colour-pair change: a reset, then the foreground, then the background,
/// each only if present.
pub open spec fn set_color_bytes(fg: Option<Color>, bg: Option<Color>) -> Seq<u8> {
    reset_bytes() + (match fg {
        Some(c) => color_bytes(c, true),
        None => Seq::<u8>::empty(),
    }) + (match bg {
        Some(c) => color_bytes(c, false),
        None => Seq::<u8>::empty(),
    })
}

/// The UTF-8 encoding of the upper-half-block glyph (U+2580).
pub open spec fn upper_half_bytes() -> Seq<u8> {
    seq![0xe2u8, 0x96u8, 0x80u8]
}

/// The UTF-8 encoding of the lower-half-block glyph (U+2584).
pub open spec fn lower_half_bytes() -> Seq<u8> {
    seq![0xe2u8, 0x96u8, 0x84u8]
}

/// Relies on `crossterm::cursor::MoveTo`: its `write_ansi` emits
/// `ESC [ row+1 ; col+1 H` with the coordinates in decimal.
#[verifier::external_body]
pub(crate) fn move_to_ansi(col: u16, row: u16) -> (r: Vec<u8>)
    requires
        col < u16::MAX,
        row < u16::MAX,
    ensures
        r@ == move_to_bytes(col, row),
{
    let mut s = String::new();
    let _ = crossterm::Command::write_ansi(&crossterm::cursor::MoveTo(col, row), &mut s);
    s.into_bytes()
}

/// Relies on `crossterm::cursor::MoveToPreviousLine`: its `write_ansi` emits
/// `ESC [ n F` with `n` in decimal.
#[verifier::external_body]
pub(crate) fn prev_line_ansi(n: u16) -> (r: Vec<u8>)
    ensures
        r@ == prev_line_bytes(n),
{
    let mut s = String::new();
    let _ = crossterm::Command::write_ansi(&crossterm::cursor::MoveToPreviousLine(n), &mut s);
    s.into_bytes()
}

/// Relies on `crossterm::cursor::MoveRight`: its `write_ansi` emits
/// `ESC [ n C` with `n` in decimal.
#[verifier::external_body]
pub(crate) fn move_right_ansi(n: u16) -> (r: Vec<u8>)
    ensures
        r@ == move_right_bytes(n),
{
    let mut s = String::new();
    let _ = crossterm::Command::write_ansi(&crossterm::cursor::MoveRight(n), &mut s);
    s.into_bytes()
}

/// Relies on `termcolor`'s `Ansi` writer: `set_color` on a fresh `ColorSpec`
/// (whose `reset` flag is on by default) emits `ESC [ 0 m`, then the
/// foreground as `ESC [ 38 ; 2 ; r ; g ; b m` or `ESC [ 38 ; 5 ; n m`, then
/// the background with 48 in place of 38, the numbers in decimal without
/// leading zeros.
#[verifier::external_body]
pub(crate) fn set_color_ansi(fg: &Option<Color>, bg: &Option<Color>) -> (r: Vec<u8>)
    ensures
        r@ == set_color_bytes(*fg, *bg),
{
    let to_tc = |c: &Color| match c {
        Color::Rgb(r, g, b) => termcolor::Color::Rgb(*r, *g, *b),
        Color::Ansi256(n) => termcolor::Color::Ansi256(*n),
    };
    let mut spec = termcolor::ColorSpec::new();
    spec.set_fg(fg.as_ref().map(to_tc));
    spec.set_bg(bg.as_ref().map(to_tc));
    let mut w = termcolor::Ansi::new(Vec::new());
    let _ = termcolor::WriteColor::set_color(&mut w, &spec);
    w.into_inner()
}

/// Relies on `termcolor`'s `Ansi` writer: `reset` emits `ESC [ 0 m`.
#[verifier::external_body]
pub(crate) fn reset_ansi() -> (r: Vec<u8>)
    ensures
        r@ == reset_bytes(),
{
    let mut w = termcolor::Ansi::new(Vec::new());
    let _ = termcolor::WriteColor::reset(&mut w);
    w.into_inner()
}

} // verus!
