//! Colour resolution, grid construction, writers and terminal helpers on
//! concrete values.

use viuer::color::{get_color_from_pixel, get_transparency_color, is_pixel_transparent, Color,
    Pixel};
use viuer::config::Config;
use viuer::error::RenderError;
use viuer::grid::PixelGrid;
use viuer::sink::StringWriter;
use viuer::utils::{str_contains, terminal_size_or_default, truecolor_env_value};
use viuer::writer::Writer;

#[test]
fn opaque_truecolor_roundtrips_the_rgb_channels() {
    let p = Pixel { r: 12, g: 34, b: 56, a: 255 };
    assert_eq!(get_color_from_pixel(p, true), Color::Rgb(12, 34, 56));
}

#[test]
fn quantization_is_deterministic_and_hits_known_palette_entries() {
    let black = Pixel { r: 0, g: 0, b: 0, a: 255 };
    let white = Pixel { r: 255, g: 255, b: 255, a: 255 };
    let once = get_color_from_pixel(black, false);
    let again = get_color_from_pixel(black, false);
    assert_eq!(once, again);
    assert_eq!(once, Color::Ansi256(16));
    assert_eq!(get_color_from_pixel(white, false), Color::Ansi256(231));
    assert_eq!(get_color_from_pixel(Pixel { r: 95, g: 135, b: 175, a: 255 }, false),
        Color::Ansi256(67));
}

#[test]
fn transparency_is_alpha_zero() {
    assert!(is_pixel_transparent(Pixel { r: 1, g: 2, b: 3, a: 0 }));
    assert!(!is_pixel_transparent(Pixel { r: 1, g: 2, b: 3, a: 1 }));
}

#[test]
fn checkerboard_tone_depends_only_on_parity_match() {
    assert_eq!(get_transparency_color(0, 0, true), Color::Rgb(102, 102, 102));
    assert_eq!(get_transparency_color(0, 1, true), Color::Rgb(153, 153, 153));
    assert_eq!(get_transparency_color(1, 0, true), Color::Rgb(153, 153, 153));
    assert_eq!(get_transparency_color(1, 1, true), Color::Rgb(102, 102, 102));
    assert_eq!(get_transparency_color(3, 7, true), get_transparency_color(1, 1, true));
}

#[test]
fn grid_from_pixels_rejects_wrong_lengths() {
    let data = vec![Pixel { r: 0, g: 0, b: 0, a: 0 }; 5];
    assert!(PixelGrid::from_pixels(2, 2, data.clone()).is_none());
    assert!(PixelGrid::from_pixels(5, 1, data).is_some());
}

#[test]
fn grid_from_rgba_bytes_reads_row_major_quadruplets() {
    let bytes = vec![1, 2, 3, 4, 5, 6, 7, 8];
    let grid = PixelGrid::from_rgba_bytes(2, 1, &bytes).unwrap();
    assert_eq!(grid.get(0, 0), Pixel { r: 1, g: 2, b: 3, a: 4 });
    assert_eq!(grid.get(0, 1), Pixel { r: 5, g: 6, b: 7, a: 8 });
    assert!(PixelGrid::from_rgba_bytes(2, 1, &vec![0, 0, 0]).is_none());
    assert!(PixelGrid::from_rgba_bytes(2, 2, &bytes).is_none());
}

#[test]
fn writers_remember_their_stream() {
    assert!(Writer::stderr().targets_stderr());
    assert!(!Writer::stdout().targets_stderr());
}

#[test]
fn writer_from_config_prefers_the_override() {
    let mut config = Config::default();
    config.use_stderr = true;
    assert!(Writer::from_config(&config).targets_stderr());
    config.override_writer = Some(Writer::stdout());
    assert!(!Writer::from_config(&config).targets_stderr());
}

#[test]
fn terminal_size_falls_back_to_80_by_24() {
    assert_eq!(terminal_size_or_default(None), (80, 24));
    assert_eq!(terminal_size_or_default(Some((120, 40))), (120, 40));
}

#[test]
fn test_truecolor() {
    assert!(truecolor_env_value("truecolor"));
    assert!(truecolor_env_value("xterm-truecolor"));
    assert!(truecolor_env_value("24bit"));
    assert!(!truecolor_env_value(""));
    assert!(!truecolor_env_value("256color"));
}

#[test]
fn substring_search_finds_runs_anywhere() {
    assert!(str_contains("abcdef", "cde"));
    assert!(str_contains("abc", ""));
    assert!(!str_contains("abc", "abcd"));
    assert!(!str_contains("abab", "aa"));
}

#[test]
fn string_writer_accumulates_and_reads_back() {
    let mut sw = StringWriter::new();
    assert_eq!(sw.read(), String::new());
    assert!(sw.bytes().is_empty());
}

#[test]
fn error_messages_name_the_failure() {
    assert_eq!(RenderError::InvalidConfiguration.message(), "invalid configuration");
    assert_eq!(RenderError::Io.message(), "io error");
}
