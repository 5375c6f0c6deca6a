//! The equalizer: bands side by side, each drawn as a bar in a column of its own.
use vstd::prelude::*;
use ratatui::buffer::Buffer;
use crate::band::{spec_bar_color, Band, GLYPH};
use crate::buffer::{buffer_cells, spec_painted, CellView};
use crate::gradient::Rgb;
use crate::layout::{spec_column, split_columns};
use crate::region::Region;

verus! {

/// The width of the column that each band gets: one cell for the bar and one
/// for the gap to the next.
pub const COLUMN_WIDTH: u16 = 2;

/// An equalizer with one bar for each frequency band, from left to right.
#[derive(Debug)]
pub struct Equalizer {
    /// The bands, leftmost first.
    pub bands: Vec<Band>,
}

/// The number of columns that are laid out for `bands` bands in `area`: one for
/// each band as long as whole columns fit, and none for the bands after that.
pub open spec fn spec_column_count(bands: nat, area: Region) -> nat {
    let room = (area.spec_span() / 2) as nat;
    if bands <= room {
        bands
    } else {
        room
    }
}

/// The colour that the first `shown` bands, each drawn into its column of
/// `area`, put at column `x`, row `y`: that of the bar whose column starts at
/// `x`, if there is one.
pub open spec fn spec_equalizer_color(
    bands: Seq<Band>,
    area: Region,
    shown: nat,
    x: int,
    y: int,
) -> Option<Rgb> {
    let offset = x - area.x;
    let index = offset / 2;
    if 0 <= offset && offset % 2 == 0 && index < shown {
        spec_bar_color(
            spec_column(area, index, 2),
            bands[index].spec_filled_rows(area.height as nat),
            x,
            y,
        )
    } else {
        None
    }
}

/// The cells of a buffer after the first `shown` bands are drawn into their
/// columns of `area`: the buffer holds the same positions, each cell of a bar
/// has got the glyph and the bar's colour there, and every other cell is as it
/// was.
pub open spec fn spec_render_columns(
    bands: Seq<Band>,
    area: Region,
    shown: nat,
    cells: Map<(u16, u16), CellView>,
) -> Map<(u16, u16), CellView> {
    Map::new(
        |at: (u16, u16)| cells.dom().contains(at),
        |at: (u16, u16)|
            match spec_equalizer_color(bands, area, shown, at.0 as int, at.1 as int) {
                Some(color) => spec_painted(cells[at], GLYPH@, color),
                None => cells[at],
            },
    )
}

/// The number of columns that are laid out for `bands` bands in `area`.
pub fn column_count(bands: usize, area: Region) -> (count: usize)
    ensures
        count == spec_column_count(bands as nat, area),
        count * COLUMN_WIDTH <= area.spec_span(),
{
    let room: usize = ((area.right() - area.left()) / COLUMN_WIDTH) as usize;
    if bands <= room {
        bands
    } else {
        room
    }
}

impl Equalizer {
    /// The cells of a buffer after the equalizer is drawn into `area`.
    pub open spec fn spec_render(self, area: Region, cells: Map<(u16, u16), CellView>) -> Map<
        (u16, u16),
        CellView,
    > {
        spec_render_columns(
            self.bands@,
            area,
            spec_column_count(self.bands@.len(), area),
            cells,
        )
    }

    /// Whether none of the bands that get a column in `area` fills a row.
    pub open spec fn spec_is_blank(self, area: Region) -> bool {
        forall|index: int|
            0 <= index < spec_column_count(self.bands@.len(), area)
                ==> (#[trigger] self.bands@[index]).spec_filled_rows(area.height as nat) == 0
    }

    /// Draws the equalizer into `area` of `buf`. The area is split from the
    /// left into columns of [`COLUMN_WIDTH`] cells, one for each band in the
    /// order of `bands`, and each band is drawn into its column. Bands for
    /// which no whole column is left are not drawn.
    pub fn render(self, area: Region, buf: &mut Buffer)
        ensures
            buffer_cells(*final(buf)) == self.spec_render(area, buffer_cells(*old(buf))),
            self.spec_is_blank(area) ==> *final(buf) == *old(buf),
    {
        let count: usize = column_count(self.bands.len(), area);
        let columns: Vec<Region> = split_columns(area, count, COLUMN_WIDTH);
        let mut index: usize = 0;
        assert(buffer_cells(*buf) =~= spec_render_columns(
            self.bands@,
            area,
            0,
            buffer_cells(*old(buf)),
        ));
        while index < columns.len()
            invariant
                index <= columns.len() == count <= self.bands.len(),
                count == spec_column_count(self.bands@.len(), area),
                count * 2 <= area.spec_span(),
                columns@ == crate::layout::spec_columns(area, count as nat, 2),
                buffer_cells(*buf) == spec_render_columns(
                    self.bands@,
                    area,
                    index as nat,
                    buffer_cells(*old(buf)),
                ),
                self.spec_is_blank(area) ==> *buf == *old(buf),
            decreases columns.len() - index,
        {
            let band: Band = self.bands[index];
            let column: Region = columns[index];
            assert(column == spec_column(area, index as int, 2));
            assert(column.x == area.x + 2 * index);
            band.render(column, buf);
            assert(buffer_cells(*buf) =~= spec_render_columns(
                self.bands@,
                area,
                (index + 1) as nat,
                buffer_cells(*old(buf)),
            ));
            index += 1;
        }
    }
}

/// For `bands` bands in a region `width` cells wide, `min(bands, width / 2)`
/// columns are laid out. They stand in the order of the bands from the left
/// edge of the region, each two cells wide and as high as the region, inside
/// the region, and none reaches into the next.
pub proof fn lemma_columns_partition(bands: nat, area: Region)
    requires
        area.in_range(),
    ensures
        spec_column_count(bands, area) == if bands <= area.width / 2 {
            bands
        } else {
            (area.width / 2) as nat
        },
        forall|index: int|
            0 <= index < spec_column_count(bands, area) ==> {
                let column = #[trigger] spec_column(area, index, 2);
                &&& column.x == area.x + 2 * index
                &&& column.y == area.y
                &&& column.width == 2
                &&& column.height == area.height
                &&& area.x <= column.x
                &&& column.x + column.width <= area.x + area.width
            },
        forall|left: int, right: int|
            0 <= left < right < spec_column_count(bands, area) ==> {
                let before = #[trigger] spec_column(area, left, 2);
                let after = #[trigger] spec_column(area, right, 2);
                before.x + before.width <= after.x
            },
{
}

/// Drawing the equalizer is drawing each band into its own column: inside the
/// column of a band that is shown, a cell shows what that band alone would
/// have drawn there, and outside those columns every cell shows what it did.
pub proof fn lemma_render_by_columns(
    bands: Seq<Band>,
    area: Region,
    cells: Map<(u16, u16), CellView>,
    at: (u16, u16),
)
    requires
        cells.dom().contains(at),
    ensures
        ({
            let shown = spec_column_count(bands.len(), area);
            let after = spec_render_columns(bands, area, shown, cells);
            let index = (at.0 - area.x) / 2;
            if area.x <= at.0 && index < shown {
                &&& spec_column(area, index, 2).x <= at.0 < spec_column(area, index, 2).x + 2
                &&& after[at] == bands[index].spec_render(spec_column(area, index, 2), cells)[at]
            } else {
                after[at] == cells[at]
            }
        }),
{
}

/// Drawing is repeatable: from the same cells the same equalizer in the same
/// region gives the same cells, and drawing it a second time over its own
/// result changes nothing.
pub proof fn lemma_render_repeatable(
    bands: Seq<Band>,
    area: Region,
    first: Map<(u16, u16), CellView>,
    second: Map<(u16, u16), CellView>,
)
    requires
        first == second,
    ensures
        ({
            let shown = spec_column_count(bands.len(), area);
            &&& spec_render_columns(bands, area, shown, first) == spec_render_columns(
                bands,
                area,
                shown,
                second,
            )
            &&& spec_render_columns(
                bands,
                area,
                shown,
                spec_render_columns(bands, area, shown, first),
            ) == spec_render_columns(bands, area, shown, first)
        }),
{
    let shown = spec_column_count(bands.len(), area);
    let once = spec_render_columns(bands, area, shown, first);
    assert(spec_render_columns(bands, area, shown, once) =~= once);
}

/// An equalizer without bands draws nothing: every cell shows what it did.
pub proof fn lemma_render_without_bands(
    bands: Seq<Band>,
    area: Region,
    cells: Map<(u16, u16), CellView>,
)
    requires
        bands.len() == 0,
    ensures
        spec_column_count(bands.len(), area) == 0,
        spec_render_columns(bands, area, 0, cells) == cells,
{
    assert(spec_render_columns(bands, area, 0, cells) =~= cells);
}

} // verus!
