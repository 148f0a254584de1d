//! The block compositor: walks the pixel grid two rows at a time, turns each
//! column pair into one terminal cell (top pixel as background, bottom pixel
//! as foreground), and emits cursor moves, colour changes and half-block
//! glyphs, one flushed buffer per terminal row. An image of odd pixel height
//! gets one extra pass that uses only the upper-half glyph.

use crate::ansi::{
    lower_half_bytes, move_right_ansi, move_right_bytes, move_to_ansi, move_to_bytes,
    prev_line_ansi, prev_line_bytes, reset_ansi, reset_bytes, set_color_ansi, set_color_bytes,
    upper_half_bytes,
};
use crate::color::{half_color, spec_half_color, Color};
use crate::config::Config;
use crate::error::{RenderError, SinkError};
use crate::grid::PixelGrid;
use crate::sink::Sink;
use vstd::prelude::*;

verus! {

/// Renders a pixel grid as coloured half-block glyphs.
pub struct BlockPrinter {}

/// One terminal cell in the making: the colour of its upper half (the pixel
/// above) and of its lower half (the pixel below). `None` is a fully
/// transparent half. A cell reaches the output only once both halves are
/// settled.
#[derive(Clone, Copy, Debug)]
pub struct Cell {
    pub bg: Option<Color>,
    pub fg: Option<Color>,
}

/// Which half of a character cell a glyph fills.
#[derive(Clone, Copy, Debug)]
pub enum Half {
    Upper,
    Lower,
}

/// One terminal write operation of the compositor.
#[derive(Clone, Copy, Debug)]
pub enum TermOp {
    /// Absolute cursor move to (column, row).
    MoveTo(u16, u16),
    /// Cursor move to the start of the line this many lines up.
    PrevLine(u16),
    /// A literal line break; also used to move down, since a plain cursor
    /// move would not scroll on the last line.
    LineBreak,
    /// Cursor move right by this many columns.
    MoveRight(u16),
    /// Set the foreground and background colours for the next glyph.
    SetColor { fg: Option<Color>, bg: Option<Color> },
    /// One half-block glyph.
    Glyph(Half),
    /// Reset colours to the terminal's defaults.
    Reset,
}

/// The operations one cell contributes. In a last (odd) row only the upper
/// half can be filled: a present top pixel becomes an upper-half glyph in its
/// colour, an absent one a cursor advance. In a full row, a fully transparent
/// cell is skipped by advancing the cursor; a half-transparent cell paints
/// only the opaque half; a full cell paints the bottom pixel as foreground of
/// a lower-half glyph over the top pixel as background.
pub open spec fn cell_ops(c: Cell, last_row: bool) -> Seq<TermOp> {
    if last_row {
        match c.bg {
            Some(top) => seq![
                TermOp::SetColor { fg: Some(top), bg: None },
                TermOp::Glyph(Half::Upper),
            ],
            None => seq![TermOp::MoveRight(1)],
        }
    } else {
        match (c.fg, c.bg) {
            (None, None) => seq![TermOp::MoveRight(1)],
            (Some(bottom), None) => seq![
                TermOp::SetColor { fg: Some(bottom), bg: None },
                TermOp::Glyph(Half::Lower),
            ],
            (None, Some(top)) => seq![
                TermOp::SetColor { fg: Some(top), bg: None },
                TermOp::Glyph(Half::Upper),
            ],
            (Some(bottom), Some(top)) => seq![
                TermOp::SetColor { fg: Some(bottom), bg: Some(top) },
                TermOp::Glyph(Half::Lower),
            ],
        }
    }
}

/// The operations of a whole row of cells, left to right.
pub open spec fn cells_ops(cells: Seq<Cell>, last_row: bool) -> Seq<TermOp>
    decreases cells.len(),
{
    if cells.len() == 0 {
        Seq::<TermOp>::empty()
    } else {
        cells_ops(cells.drop_last(), last_row) + cell_ops(cells.last(), last_row)
    }
}

/// A finished terminal row: its cells, then a colour reset and a line break.
pub open spec fn row_ops(cells: Seq<Cell>, last_row: bool) -> Seq<TermOp> {
    cells_ops(cells, last_row) + seq![TermOp::Reset, TermOp::LineBreak]
}

/// The exact bytes of one operation.
pub open spec fn op_bytes(op: TermOp) -> Seq<u8> {
    match op {
        TermOp::MoveTo(col, row) => move_to_bytes(col, row),
        TermOp::PrevLine(n) => prev_line_bytes(n),
        TermOp::LineBreak => seq![10u8],
        TermOp::MoveRight(n) => move_right_bytes(n),
        TermOp::SetColor { fg, bg } => set_color_bytes(fg, bg),
        TermOp::Glyph(Half::Upper) => upper_half_bytes(),
        TermOp::Glyph(Half::Lower) => lower_half_bytes(),
        TermOp::Reset => reset_bytes(),
    }
}

/// The bytes of a sequence of operations, in order.
pub open spec fn ops_bytes(ops: Seq<TermOp>) -> Seq<u8>
    decreases ops.len(),
{
    if ops.len() == 0 {
        Seq::<u8>::empty()
    } else {
        ops_bytes(ops.drop_last()) + op_bytes(ops.last())
    }
}

proof fn lemma_ops_bytes_concat(a: Seq<TermOp>, b: Seq<TermOp>)
    ensures
        ops_bytes(a + b) == ops_bytes(a) + ops_bytes(b),
    decreases b.len(),
{
    if b.len() == 0 {
        assert(a + b =~= a);
        assert(ops_bytes(a) + ops_bytes(b) =~= ops_bytes(a));
    } else {
        lemma_ops_bytes_concat(a, b.drop_last());
        assert((a + b).drop_last() =~= a + b.drop_last());
        assert((a + b).last() == b.last());
        assert(ops_bytes(a) + ops_bytes(b) =~= ops_bytes(a) + ops_bytes(b.drop_last()) + op_bytes(
            b.last(),
        ));
    }
}

proof fn lemma_ops_bytes_one(op: TermOp)
    ensures
        ops_bytes(seq![op]) == op_bytes(op),
{
    let s = seq![op];
    assert(s.len() == 1);
    assert(s.drop_last() =~= Seq::<TermOp>::empty());
    assert(ops_bytes(Seq::<TermOp>::empty()) == Seq::<u8>::empty());
    assert(s.last() == op);
    assert(ops_bytes(s) == ops_bytes(s.drop_last()) + op_bytes(s.last()));
    assert(Seq::<u8>::empty() + op_bytes(op) =~= op_bytes(op));
}

proof fn lemma_ops_bytes_two(op1: TermOp, op2: TermOp)
    ensures
        ops_bytes(seq![op1, op2]) == op_bytes(op1) + op_bytes(op2),
{
    assert(seq![op1, op2].drop_last() =~= seq![op1]);
    lemma_ops_bytes_one(op1);
}

proof fn lemma_cells_ops_take_step(cells: Seq<Cell>, i: int, last_row: bool)
    requires
        0 <= i < cells.len(),
    ensures
        cells_ops(cells.take(i + 1), last_row) == cells_ops(cells.take(i), last_row) + cell_ops(
            cells[i],
            last_row,
        ),
{
    assert(cells.take(i + 1).drop_last() =~= cells.take(i));
    assert(cells.take(i + 1).last() == cells[i]);
}

/// The bytes of one cell, appended to the output buffer.
fn emit_cell(c: Cell, out_buffer: &mut Vec<u8>, is_last_row: bool)
    ensures
        final(out_buffer)@ == old(out_buffer)@ + ops_bytes(cell_ops(c, is_last_row)),
{
    let ghost start = out_buffer@;
    if is_last_row {
        match c.bg {
            Some(top) => {
                let fg = Some(top);
                let bg = None;
                let mut b = set_color_ansi(&fg, &bg);
                out_buffer.append(&mut b);
                out_buffer.push(0xe2);
                out_buffer.push(0x96);
                out_buffer.push(0x80);
                proof {
                    lemma_ops_bytes_two(
                        TermOp::SetColor { fg: Some(top), bg: None },
                        TermOp::Glyph(Half::Upper),
                    );
                    assert(out_buffer@ =~= start + ops_bytes(cell_ops(c, is_last_row)));
                }
            },
            None => {
                let mut b = move_right_ansi(1);
                out_buffer.append(&mut b);
                proof {
                    lemma_ops_bytes_one(TermOp::MoveRight(1));
                }
            },
        }
    } else {
        match (c.fg, c.bg) {
            (None, None) => {
                let mut b = move_right_ansi(1);
                out_buffer.append(&mut b);
                proof {
                    lemma_ops_bytes_one(TermOp::MoveRight(1));
                }
            },
            (Some(bottom), None) => {
                let fg = Some(bottom);
                let bg = None;
                let mut b = set_color_ansi(&fg, &bg);
                out_buffer.append(&mut b);
                out_buffer.push(0xe2);
                out_buffer.push(0x96);
                out_buffer.push(0x84);
                proof {
                    lemma_ops_bytes_two(
                        TermOp::SetColor { fg: Some(bottom), bg: None },
                        TermOp::Glyph(Half::Lower),
                    );
                    assert(out_buffer@ =~= start + ops_bytes(cell_ops(c, is_last_row)));
                }
            },
            (None, Some(top)) => {
                let fg = Some(top);
                let bg = None;
                let mut b = set_color_ansi(&fg, &bg);
                out_buffer.append(&mut b);
                out_buffer.push(0xe2);
                out_buffer.push(0x96);
                out_buffer.push(0x80);
                proof {
                    lemma_ops_bytes_two(
                        TermOp::SetColor { fg: Some(top), bg: None },
                        TermOp::Glyph(Half::Upper),
                    );
                    assert(out_buffer@ =~= start + ops_bytes(cell_ops(c, is_last_row)));
                }
            },
            (Some(bottom), Some(top)) => {
                let fg = Some(bottom);
                let bg = Some(top);
                let mut b = set_color_ansi(&fg, &bg);
                out_buffer.append(&mut b);
                out_buffer.push(0xe2);
                out_buffer.push(0x96);
                out_buffer.push(0x84);
                proof {
                    lemma_ops_bytes_two(
                        TermOp::SetColor { fg: Some(bottom), bg: Some(top) },
                        TermOp::Glyph(Half::Lower),
                    );
                    assert(out_buffer@ =~= start + ops_bytes(cell_ops(c, is_last_row)));
                }
            },
        }
    }
}

/// Translate a finished row of cells into bytes appended to the output
/// buffer: each cell per the glyph policy, then a colour reset and a line
/// break.
pub fn fill_out_buffer(row_buffer: &Vec<Cell>, out_buffer: &mut Vec<u8>, is_last_row: bool)
    ensures
        final(out_buffer)@ == old(out_buffer)@ + ops_bytes(row_ops(row_buffer@, is_last_row)),
{
    let ghost start = out_buffer@;
    let n = row_buffer.len();
    let mut i: usize = 0;
    while i < n
        invariant
            i <= n,
            n == row_buffer@.len(),
            out_buffer@ == start + ops_bytes(cells_ops(row_buffer@.take(i as int), is_last_row)),
        decreases n - i,
    {
        emit_cell(row_buffer[i], out_buffer, is_last_row);
        proof {
            lemma_cells_ops_take_step(row_buffer@, i as int, is_last_row);
            lemma_ops_bytes_concat(
                cells_ops(row_buffer@.take(i as int), is_last_row),
                cell_ops(row_buffer@[i as int], is_last_row),
            );
            assert(out_buffer@ =~= start + ops_bytes(
                cells_ops(row_buffer@.take(i as int + 1), is_last_row),
            ));
        }
        i = i + 1;
    }
    let mut b = reset_ansi();
    out_buffer.append(&mut b);
    out_buffer.push(10);
    proof {
        assert(row_buffer@.take(n as int) =~= row_buffer@);
        lemma_ops_bytes_concat(
            cells_ops(row_buffer@, is_last_row),
            seq![TermOp::Reset, TermOp::LineBreak],
        );
        lemma_ops_bytes_two(TermOp::Reset, TermOp::LineBreak);
        assert(out_buffer@ =~= start + ops_bytes(row_ops(row_buffer@, is_last_row)));
    }
}

/// The cells of one full terminal row: backgrounds from the upper pixel row,
/// foregrounds from the lower.
pub open spec fn spec_row_cells(g: PixelGrid, cfg: Config, term_row: int) -> Seq<Cell> {
    Seq::new(
        g.width as nat,
        |col: int|
            Cell {
                bg: spec_half_color(
                    g.pixel_at(2 * term_row, col),
                    2 * term_row,
                    col,
                    cfg.transparent,
                    cfg.truecolor,
                ),
                fg: spec_half_color(
                    g.pixel_at(2 * term_row + 1, col),
                    2 * term_row + 1,
                    col,
                    cfg.transparent,
                    cfg.truecolor,
                ),
            },
    )
}

/// The cells of the extra pass of an odd-height image: only the backgrounds
/// are filled, from the single remaining pixel row.
pub open spec fn spec_last_row_cells(g: PixelGrid, cfg: Config) -> Seq<Cell> {
    Seq::new(
        g.width as nat,
        |col: int|
            Cell {
                bg: spec_half_color(
                    g.pixel_at(g.height as int - 1, col),
                    g.height as int - 1,
                    col,
                    cfg.transparent,
                    cfg.truecolor,
                ),
                fg: None,
            },
    )
}

/// The cursor-positioning operations before any pixel: an absolute move, a
/// move up, or literal line breaks downward.
pub open spec fn offset_ops(cfg: Config) -> Seq<TermOp> {
    if cfg.absolute_offset {
        seq![TermOp::MoveTo(0, cfg.y as u16)]
    } else if cfg.y < 0 {
        seq![TermOp::PrevLine((-(cfg.y as int)) as u16)]
    } else {
        Seq::new(cfg.y as nat, |i: int| TermOp::LineBreak)
    }
}

/// The bytes flushed for the terminal row `i` (a full pair of pixel rows):
/// an optional right shift by the x offset, then the row's cells.
pub open spec fn row_chunk_bytes(g: PixelGrid, cfg: Config, i: int) -> Seq<u8> {
    (if cfg.x > 0 {
        move_right_bytes(cfg.x)
    } else {
        Seq::<u8>::empty()
    }) + ops_bytes(row_ops(spec_row_cells(g, cfg, i), false))
}

/// The bytes of the `i`-th flush of a render: the first flush carries the
/// offset moves; each full terminal row is one flush; the final flush carries
/// the odd last row if there is one, and is otherwise empty.
pub open spec fn spec_chunk(g: PixelGrid, cfg: Config, i: int) -> Seq<u8> {
    let full_rows = g.height as int / 2;
    (if i == 0 {
        ops_bytes(offset_ops(cfg))
    } else {
        Seq::<u8>::empty()
    }) + (if i < full_rows {
        row_chunk_bytes(g, cfg, i)
    } else {
        if g.height as int % 2 == 1 {
            ops_bytes(row_ops(spec_last_row_cells(g, cfg), true))
        } else {
            Seq::<u8>::empty()
        }
    })
}

/// Everything a render flushes, flush by flush: one chunk per full terminal
/// row and one final chunk.
pub open spec fn spec_chunks(g: PixelGrid, cfg: Config) -> Seq<Seq<u8>> {
    Seq::new((g.height as int / 2 + 1) as nat, |i: int| spec_chunk(g, cfg, i))
}

/// The cells of the full terminal row `term_row`, resolved from the grid.
fn build_row_cells(grid: &PixelGrid, config: &Config, term_row: u32) -> (cells: Vec<Cell>)
    requires
        grid.wf(),
        2 * (term_row as int) + 1 < grid.height as int,
    ensures
        cells@ == spec_row_cells(*grid, *config, term_row as int),
{
    let mut cells: Vec<Cell> = Vec::new();
    let mut col: u32 = 0;
    while col < grid.width
        invariant
            grid.wf(),
            2 * (term_row as int) + 1 < grid.height as int,
            col <= grid.width,
            cells@.len() == col as int,
            forall|j: int|
                0 <= j < col as int ==> cells@[j] == spec_row_cells(*grid, *config, term_row as int)[j],
        decreases grid.width - col,
    {
        let top = grid.get(2 * term_row, col);
        let bottom = grid.get(2 * term_row + 1, col);
        let cell = Cell {
            bg: half_color(top, 2 * term_row, col, config.transparent, config.truecolor),
            fg: half_color(bottom, 2 * term_row + 1, col, config.transparent, config.truecolor),
        };
        cells.push(cell);
        col = col + 1;
    }
    proof {
        assert(cells@ =~= spec_row_cells(*grid, *config, term_row as int));
    }
    cells
}

/// The cells of the odd last pixel row: backgrounds only.
fn build_last_row_cells(grid: &PixelGrid, config: &Config) -> (cells: Vec<Cell>)
    requires
        grid.wf(),
        grid.height >= 1,
    ensures
        cells@ == spec_last_row_cells(*grid, *config),
{
    let row = grid.height - 1;
    let mut cells: Vec<Cell> = Vec::new();
    let mut col: u32 = 0;
    while col < grid.width
        invariant
            grid.wf(),
            grid.height >= 1,
            row == grid.height - 1,
            col <= grid.width,
            cells@.len() == col as int,
            forall|j: int|
                0 <= j < col as int ==> cells@[j] == spec_last_row_cells(*grid, *config)[j],
        decreases grid.width - col,
    {
        let top = grid.get(row, col);
        let cell = Cell {
            bg: half_color(top, row, col, config.transparent, config.truecolor),
            fg: None,
        };
        cells.push(cell);
        col = col + 1;
    }
    proof {
        assert(cells@ =~= spec_last_row_cells(*grid, *config));
    }
    cells
}

/// Compute every byte a render will flush, one chunk per flush, without
/// touching any sink. Fails exactly on the one invalid configuration, before
/// any work.
pub fn render_chunks(grid: &PixelGrid, config: &Config) -> (out: Result<Vec<Vec<u8>>, RenderError>)
    requires
        grid.wf(),
        !config.absolute_offset ==> config.y > i16::MIN,
    ensures
        (out is Ok) <==> !config.invalid(),
        config.invalid() ==> out == Err::<Vec<Vec<u8>>, RenderError>(
            RenderError::InvalidConfiguration,
        ),
        out is Ok ==> out.unwrap()@.map_values(|v: Vec<u8>| v@) == spec_chunks(*grid, *config),
{
    if config.absolute_offset && config.y < 0 {
        return Err(RenderError::InvalidConfiguration);
    }
    let mut pending: Vec<u8> = Vec::new();
    if config.absolute_offset {
        let mut b = move_to_ansi(0, config.y as u16);
        pending.append(&mut b);
        proof {
            lemma_ops_bytes_one(TermOp::MoveTo(0, config.y as u16));
            assert(pending@ =~= ops_bytes(offset_ops(*config)));
        }
    } else if config.y < 0 {
        let n: u16 = (-config.y) as u16;
        let mut b = prev_line_ansi(n);
        pending.append(&mut b);
        proof {
            lemma_ops_bytes_one(TermOp::PrevLine(n));
            assert(pending@ =~= ops_bytes(offset_ops(*config)));
        }
    } else {
        let ycount: u16 = config.y as u16;
        let mut k: u16 = 0;
        while k < ycount
            invariant
                k <= ycount,
                pending@ == ops_bytes(Seq::new(k as nat, |i: int| TermOp::LineBreak)),
            decreases ycount - k,
        {
            pending.push(10);
            proof {
                let s1 = Seq::new((k + 1) as nat, |i: int| TermOp::LineBreak);
                assert(s1.drop_last() =~= Seq::new(k as nat, |i: int| TermOp::LineBreak));
                assert(s1.last() == TermOp::LineBreak);
                assert(pending@ =~= ops_bytes(s1));
            }
            k = k + 1;
        }
        proof {
            assert(pending@ =~= ops_bytes(offset_ops(*config)));
        }
    }
    let full_rows: u32 = grid.height / 2;
    proof {
        vstd::arithmetic::div_mod::lemma_fundamental_div_mod(grid.height as int, 2);
    }
    let mut chunks: Vec<Vec<u8>> = Vec::new();
    let mut tr: u32 = 0;
    while tr < full_rows
        invariant
            grid.wf(),
            !config.invalid(),
            full_rows == grid.height as int / 2,
            2 * (full_rows as int) <= grid.height as int,
            tr <= full_rows,
            chunks@.len() == tr as int,
            forall|j: int| 0 <= j < tr as int ==> #[trigger] chunks@[j]@ == spec_chunk(*grid, *config, j),
            pending@ == (if tr == 0 {
                ops_bytes(offset_ops(*config))
            } else {
                Seq::<u8>::empty()
            }),
        decreases full_rows - tr,
    {
        let ghost chunk_start = pending@;
        if config.x > 0 {
            let mut b = move_right_ansi(config.x);
            pending.append(&mut b);
        }
        let cells = build_row_cells(grid, config, tr);
        fill_out_buffer(&cells, &mut pending, false);
        proof {
            assert(pending@ =~= chunk_start + row_chunk_bytes(*grid, *config, tr as int));
            assert(pending@ =~= spec_chunk(*grid, *config, tr as int));
        }
        chunks.push(pending);
        pending = Vec::new();
        tr = tr + 1;
    }
    if grid.height % 2 == 1 {
        let cells = build_last_row_cells(grid, config);
        fill_out_buffer(&cells, &mut pending, true);
    }
    proof {
        assert(pending@ =~= spec_chunk(*grid, *config, full_rows as int));
    }
    chunks.push(pending);
    proof {
        assert(chunks@.map_values(|v: Vec<u8>| v@) =~= spec_chunks(*grid, *config));
    }
    Ok(chunks)
}

/// The deliberate policy on flush failures: a closed downstream pipe counts
/// as a successful render, any other failure surfaces as an I/O error.
pub fn classify_flush(result: Result<(), SinkError>) -> (r: Result<(), RenderError>)
    ensures
        result is Ok ==> r is Ok,
        result == Err::<(), SinkError>(SinkError::BrokenPipe) ==> r is Ok,
        result == Err::<(), SinkError>(SinkError::Other) ==> r == Err::<(), RenderError>(
            RenderError::Io,
        ),
        r is Err ==> r == Err::<(), RenderError>(RenderError::Io),
{
    match result {
        Ok(_) => Ok(()),
        // A closed consumer pipe is common (output piped into a pager that
        // exits early) and is not an error of the render.
        Err(SinkError::BrokenPipe) => Ok(()),
        Err(SinkError::Other) => Err(RenderError::Io),
    }
}

/// Hand the buffered bytes to the sink. On a successful flush the buffer is
/// emptied; on a failed one it is kept, and only a failure other than a
/// broken pipe is an error.
pub fn print_buffer<S: Sink>(sink: &mut S, out_buffer: &mut Vec<u8>) -> (r: Result<(), RenderError>)
    ensures
        r is Err ==> r == Err::<(), RenderError>(RenderError::Io),
        final(out_buffer)@ == old(out_buffer)@ || final(out_buffer)@ == Seq::<u8>::empty(),
{
    let res = sink.flush_row(out_buffer);
    if res.is_ok() {
        out_buffer.clear();
    }
    classify_flush(res)
}

impl BlockPrinter {
    /// Render the grid through the sink: position the cursor per the
    /// configuration, then flush one buffer per terminal row (two pixel
    /// rows), plus a final flush that carries the odd last row if any. An
    /// absolute offset with a negative row is rejected before anything is
    /// written.
    pub fn print<S: Sink>(grid: &PixelGrid, config: &Config, sink: &mut S) -> (r: Result<
        (),
        RenderError,
    >)
        requires
            grid.wf(),
            !config.absolute_offset ==> config.y > i16::MIN,
        ensures
            config.invalid() ==> r == Err::<(), RenderError>(RenderError::InvalidConfiguration)
                && *final(sink) == *old(sink),
            !config.invalid() ==> !(r == Err::<(), RenderError>(
                RenderError::InvalidConfiguration,
            )),
            !config.invalid() && r is Err ==> r == Err::<(), RenderError>(RenderError::Io),
    {
        let result = render_chunks(grid, config);
        let chunks = match result {
            Ok(c) => c,
            Err(_) => {
                // The one error a pure chunk computation can raise.
                return Err(RenderError::InvalidConfiguration);
            },
        };
        let mut pending: Vec<u8> = Vec::new();
        let mut i: usize = 0;
        while i < chunks.len()
            invariant
                i <= chunks@.len(),
                !config.invalid(),
            decreases chunks@.len() - i,
        {
            pending.extend_from_slice(chunks[i].as_slice());
            match print_buffer(sink, &mut pending) {
                Ok(_) => {},
                Err(e) => {
                    return Err(e);
                },
            }
            i = i + 1;
        }
        Ok(())
    }
}

/// Law: in the extra pass of an odd-height image, the lower-half glyph never
/// appears among the cells' operations.
proof fn lemma_cells_ops_last_row_upper_only(cells: Seq<Cell>)
    ensures
        forall|i: int|
            0 <= i < cells_ops(cells, true).len() ==> cells_ops(cells, true)[i] != TermOp::Glyph(
                Half::Lower,
            ),
    decreases cells.len(),
{
    if cells.len() == 0 {
    } else {
        lemma_cells_ops_last_row_upper_only(cells.drop_last());
        let pre = cells_ops(cells.drop_last(), true);
        let tail = cell_ops(cells.last(), true);
        assert forall|i: int| 0 <= i < cells_ops(cells, true).len() implies cells_ops(cells, true)[i]
            != TermOp::Glyph(Half::Lower) by {
            if i < pre.len() {
                assert(cells_ops(cells, true)[i] == pre[i]);
            } else {
                assert(cells_ops(cells, true)[i] == tail[i - pre.len()]);
            }
        }
    }
}

/// Law: an image with an odd pixel height finishes with one extra pass that
/// writes only upper-half glyphs; the lower-half glyph never reaches a last
/// row.
pub proof fn lemma_last_row_upper_only(cells: Seq<Cell>)
    ensures
        forall|i: int|
            0 <= i < row_ops(cells, true).len() ==> row_ops(cells, true)[i] != TermOp::Glyph(
                Half::Lower,
            ),
{
    lemma_cells_ops_last_row_upper_only(cells);
    let pre = cells_ops(cells, true);
    assert forall|i: int| 0 <= i < row_ops(cells, true).len() implies row_ops(cells, true)[i]
        != TermOp::Glyph(Half::Lower) by {
        if i < pre.len() {
            assert(row_ops(cells, true)[i] == pre[i]);
        } else {
            assert(row_ops(cells, true)[i] == seq![TermOp::Reset, TermOp::LineBreak][i - pre.len()]);
        }
    }
}

/// Law: a cell both of whose halves are transparent produces no colour write
/// and no glyph, only a single one-column cursor advance.
pub proof fn lemma_transparent_cell_skips(c: Cell)
    requires
        c.bg is None,
        c.fg is None,
    ensures
        cell_ops(c, false) == seq![TermOp::MoveRight(1)],
{
}

/// Law: with transparency pass-through on, a column whose two pixels both
/// have alpha 0 contributes exactly one cursor advance to its terminal row.
pub proof fn lemma_transparent_pixels_advance_cursor(
    g: PixelGrid,
    cfg: Config,
    term_row: int,
    col: int,
)
    requires
        g.wf(),
        cfg.transparent,
        0 <= term_row,
        2 * term_row + 1 < g.height as int,
        0 <= col < g.width as int,
        g.pixel_at(2 * term_row, col).a == 0,
        g.pixel_at(2 * term_row + 1, col).a == 0,
    ensures
        cell_ops(spec_row_cells(g, cfg, term_row)[col], false) == seq![TermOp::MoveRight(1)],
{
}

} // verus!
