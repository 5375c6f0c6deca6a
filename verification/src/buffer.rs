//! The cell buffer that bars are drawn into.
//!
//! The buffer is ratatui's. What this library knows of it is stated here and
//! taken on trust; nothing below is proved.
use vstd::prelude::*;
use ratatui::buffer::Buffer;
use ratatui::style::Color;
use crate::gradient::Rgb;

verus! {

/// ratatui's `Buffer`, carried through as it is.
#[verifier::external_type_specification]
#[verifier::external_body]
pub struct ExBuffer(ratatui::buffer::Buffer);

/// A colour of a cell: one of the terminal's named colours, an RGB colour, or
/// a colour of the terminal's palette by its index.
pub enum Tint {
    Reset,
    Black,
    Red,
    Green,
    Yellow,
    Blue,
    Magenta,
    Cyan,
    Gray,
    DarkGray,
    LightRed,
    LightGreen,
    LightYellow,
    LightBlue,
    LightMagenta,
    LightCyan,
    White,
    Rgb(u8, u8, u8),
    Indexed(u8),
}

/// What a cell of the buffer holds.
pub struct CellView {
    /// The symbol in the cell.
    pub glyph: Seq<char>,
    /// The foreground colour.
    pub fg: Tint,
    /// The background colour.
    pub bg: Tint,
    /// The colour of the underline.
    pub underline: Tint,
    /// The text modifiers that are set, as the bits of ratatui's `Modifier`.
    pub modifier: u16,
    /// Whether the cell is skipped when the buffer is copied to the screen.
    pub skip: bool,
}

/// The cell `cell` with the symbol `glyph` in the foreground colour `color`,
/// and everything else as it was.
pub open spec fn spec_painted(cell: CellView, glyph: Seq<char>, color: Rgb) -> CellView {
    CellView { glyph, fg: Tint::Rgb(color.r, color.g, color.b), ..cell }
}

/// The cells that a buffer holds, by column and row: a position is in the
/// map's domain where `Buffer::cell` finds a cell there, which it does inside
/// the buffer's area.
pub uninterp spec fn buffer_cells(buf: Buffer) -> Map<(u16, u16), CellView>;

/// Calls `Buffer::cell` and says whether it found a cell at column `x`, row
/// `y`. Taken on trust: that this is so exactly for the positions which
/// [`buffer_cells`] holds.
#[verifier::external_body]
pub(crate) fn has_cell(buf: &Buffer, x: u16, y: u16) -> (present: bool)
    ensures
        present == buffer_cells(*buf).dom().contains((x, y)),
{
    buf.cell((x, y)).is_some()
}

/// Indexes the buffer at column `x`, row `y` and calls `Cell::set_fg` with the
/// RGB colour and `Cell::set_symbol` with the glyph. Taken on trust: that at a
/// position which the buffer holds the index does not fail, that afterwards
/// this one cell has the glyph as its symbol and the colour as its foreground
/// and is otherwise as it was, and that every other cell is as it was.
#[verifier::external_body]
pub(crate) fn paint_cell(buf: &mut Buffer, x: u16, y: u16, glyph: &str, color: Rgb)
    requires
        buffer_cells(*old(buf)).dom().contains((x, y)),
    ensures
        buffer_cells(*final(buf)) == buffer_cells(*old(buf)).insert(
            (x, y),
            spec_painted(buffer_cells(*old(buf))[(x, y)], glyph@, color),
        ),
{
    buf[(x, y)].set_fg(Color::Rgb(color.r, color.g, color.b)).set_symbol(glyph);
}

} // verus!
