//! The compositor's exact output on small grids, through the in-memory sink.

use viuer::block::{render_chunks, BlockPrinter};
use viuer::color::Pixel;
use viuer::config::Config;
use viuer::error::{RenderError, SinkError};
use viuer::grid::PixelGrid;
use viuer::sink::{FailingWriter, StringWriter};

fn px(r: u8, g: u8, b: u8, a: u8) -> Pixel {
    Pixel { r, g, b, a }
}

fn grid_of(width: u32, height: u32, pixels: Vec<Pixel>) -> PixelGrid {
    PixelGrid::from_pixels(width, height, pixels).unwrap()
}

fn base_config() -> Config {
    let mut config = Config::default();
    config.truecolor = true;
    config
}

#[test]
fn single_pixel_renders_one_upper_half_row() {
    let grid = grid_of(1, 1, vec![px(255, 0, 0, 255)]);
    let config = base_config();
    let mut sw = StringWriter::new();
    let result = BlockPrinter::print(&grid, &config, &mut sw);
    assert!(result.is_ok());
    assert_eq!(
        sw.read(),
        "\u{1b}[0m\u{1b}[38;2;255;0;0m\u{2580}\u{1b}[0m\n".to_string()
    );
}

#[test]
fn two_stacked_pixels_render_one_lower_half_cell() {
    // Top pixel becomes the background, bottom pixel the foreground.
    let grid = grid_of(1, 2, vec![px(255, 0, 0, 255), px(0, 0, 255, 255)]);
    let config = base_config();
    let mut sw = StringWriter::new();
    let result = BlockPrinter::print(&grid, &config, &mut sw);
    assert!(result.is_ok());
    assert_eq!(
        sw.read(),
        "\u{1b}[0m\u{1b}[38;2;0;0;255m\u{1b}[48;2;255;0;0m\u{2584}\u{1b}[0m\n".to_string()
    );
}

#[test]
fn transparent_pixels_only_advance_the_cursor() {
    // With transparency pass-through, a fully transparent column is skipped.
    let grid = grid_of(
        2,
        2,
        vec![px(0, 0, 0, 0), px(0, 0, 0, 0), px(0, 0, 0, 0), px(0, 0, 0, 0)],
    );
    let mut config = base_config();
    config.transparent = true;
    let mut sw = StringWriter::new();
    let result = BlockPrinter::print(&grid, &config, &mut sw);
    assert!(result.is_ok());
    assert_eq!(
        sw.read(),
        "\u{1b}[1C\u{1b}[1C\u{1b}[0m\n".to_string()
    );
}

#[test]
fn transparent_pixels_get_checkerboard_tones() {
    // Without pass-through, alpha-0 pixels take the two fixed grey tones,
    // dark where row and column parity match, light where they differ.
    let grid = grid_of(2, 1, vec![px(9, 9, 9, 0), px(9, 9, 9, 0)]);
    let config = base_config();
    let mut sw = StringWriter::new();
    let result = BlockPrinter::print(&grid, &config, &mut sw);
    assert!(result.is_ok());
    assert_eq!(
        sw.read(),
        "\u{1b}[0m\u{1b}[38;2;102;102;102m\u{2580}\u{1b}[0m\u{1b}[38;2;153;153;153m\u{2580}\u{1b}[0m\n"
            .to_string()
    );
}

#[test]
fn odd_height_adds_a_last_row_of_upper_half_glyphs() {
    let grid = grid_of(
        1,
        3,
        vec![px(1, 1, 1, 255), px(2, 2, 2, 255), px(3, 3, 3, 255)],
    );
    let config = base_config();
    let chunks = render_chunks(&grid, &config).unwrap();
    // One full terminal row, then the final flush with the odd last row.
    assert_eq!(chunks.len(), 2);
    let full_row = String::from_utf8(chunks[0].clone()).unwrap();
    let last_row = String::from_utf8(chunks[1].clone()).unwrap();
    assert!(full_row.contains('\u{2584}'));
    assert!(last_row.contains('\u{2580}'));
    assert!(!last_row.contains('\u{2584}'));
    assert_eq!(
        last_row,
        "\u{1b}[0m\u{1b}[38;2;3;3;3m\u{2580}\u{1b}[0m\n".to_string()
    );
}

#[test]
fn even_height_ends_with_an_empty_final_flush() {
    let grid = grid_of(1, 2, vec![px(1, 1, 1, 255), px(2, 2, 2, 255)]);
    let config = base_config();
    let chunks = render_chunks(&grid, &config).unwrap();
    assert_eq!(chunks.len(), 2);
    assert!(chunks[1].is_empty());
}

#[test]
fn positive_y_offset_emits_line_breaks() {
    let grid = grid_of(1, 2, vec![px(1, 1, 1, 255), px(2, 2, 2, 255)]);
    let mut config = base_config();
    config.y = 2;
    let chunks = render_chunks(&grid, &config).unwrap();
    assert!(chunks[0].starts_with(b"\n\n"));
}

#[test]
fn negative_y_offset_moves_the_cursor_up() {
    let grid = grid_of(1, 2, vec![px(1, 1, 1, 255), px(2, 2, 2, 255)]);
    let mut config = base_config();
    config.y = -2;
    let chunks = render_chunks(&grid, &config).unwrap();
    assert!(chunks[0].starts_with(b"\x1b[2F"));
}

#[test]
fn absolute_offset_moves_to_the_requested_row() {
    let grid = grid_of(1, 2, vec![px(1, 1, 1, 255), px(2, 2, 2, 255)]);
    let mut config = base_config();
    config.absolute_offset = true;
    config.y = 3;
    let chunks = render_chunks(&grid, &config).unwrap();
    assert!(chunks[0].starts_with(b"\x1b[4;1H"));
}

#[test]
fn x_offset_shifts_every_full_row() {
    let grid = grid_of(1, 2, vec![px(1, 1, 1, 255), px(2, 2, 2, 255)]);
    let mut config = base_config();
    config.x = 3;
    let chunks = render_chunks(&grid, &config).unwrap();
    assert!(chunks[0].starts_with(b"\x1b[3C"));
}

#[test]
fn absolute_offset_with_negative_y_is_rejected_before_any_output() {
    let grid = grid_of(1, 1, vec![px(255, 0, 0, 255)]);
    let mut config = base_config();
    config.absolute_offset = true;
    config.y = -1;
    let mut sw = StringWriter::new();
    let result = BlockPrinter::print(&grid, &config, &mut sw);
    assert_eq!(result, Err(RenderError::InvalidConfiguration));
    assert!(sw.bytes().is_empty());
    assert_eq!(
        render_chunks(&grid, &config),
        Err(RenderError::InvalidConfiguration)
    );
}

#[test]
fn broken_pipe_on_flush_is_success() {
    let grid = grid_of(1, 1, vec![px(255, 0, 0, 255)]);
    let config = base_config();
    let mut sink = FailingWriter::new(SinkError::BrokenPipe);
    let result = BlockPrinter::print(&grid, &config, &mut sink);
    assert_eq!(result, Ok(()));
}

#[test]
fn other_sink_failures_surface_as_io_errors() {
    let grid = grid_of(1, 1, vec![px(255, 0, 0, 255)]);
    let config = base_config();
    let mut sink = FailingWriter::new(SinkError::Other);
    let result = BlockPrinter::print(&grid, &config, &mut sink);
    assert_eq!(result, Err(RenderError::Io));
}

#[test]
fn empty_grid_renders_nothing() {
    let grid = grid_of(0, 0, vec![]);
    let config = base_config();
    let mut sw = StringWriter::new();
    let result = BlockPrinter::print(&grid, &config, &mut sw);
    assert!(result.is_ok());
    assert!(sw.bytes().is_empty());
}

#[test]
fn x_offset_does_not_shift_the_odd_last_row() {
    let grid = grid_of(1, 1, vec![px(1, 1, 1, 255)]);
    let mut config = base_config();
    config.x = 3;
    let chunks = render_chunks(&grid, &config).unwrap();
    assert_eq!(chunks.len(), 1);
    assert!(!String::from_utf8(chunks[0].clone()).unwrap().contains("\u{1b}[3C"));
}

#[test]
fn quantized_rendering_uses_the_palette_index() {
    // Black maps to palette index 16, white to 231.
    let grid = grid_of(1, 2, vec![px(0, 0, 0, 255), px(255, 255, 255, 255)]);
    let mut config = base_config();
    config.truecolor = false;
    let mut sw = StringWriter::new();
    let result = BlockPrinter::print(&grid, &config, &mut sw);
    assert!(result.is_ok());
    assert_eq!(
        sw.read(),
        "\u{1b}[0m\u{1b}[38;5;231m\u{1b}[48;5;16m\u{2584}\u{1b}[0m\n".to_string()
    );
}
