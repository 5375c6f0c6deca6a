//! Columns of equal width, side by side from the left edge of a region.
//!
//! The columns are laid out by ratatui's `Layout`. What it returns is stated
//! here and taken on trust.
use vstd::prelude::*;
use ratatui::layout::{Constraint, Layout, Rect};
use crate::region::Region;

verus! {

/// Column `index` of the columns of `width` cells that stand side by side from
/// the left edge of `area`, each as high as `area`.
pub open spec fn spec_column(area: Region, index: int, width: int) -> Region {
    Region { x: (area.x + index * width) as u16, y: area.y, width: width as u16, height: area.height }
}

/// The first `count` columns of `width` cells in `area`, from the left.
pub open spec fn spec_columns(area: Region, count: nat, width: int) -> Seq<Region> {
    Seq::new(count, |index: int| spec_column(area, index, width))
}

/// Calls `Layout::horizontal` with `count` constraints `Constraint::Length(width)`
/// and `Layout::split` on `area`. Taken on trust, for columns that all fit into
/// the area: that the layout returns one rectangle for each constraint, in their
/// order; that each has the length asked for, as ratatui documents of
/// `Constraint::Length`; that they stand at the start of the area with no space
/// between them, as it documents of `Flex::Start` and of a spacing of zero, the
/// values that `Layout::horizontal` sets; and that each has the area's top row
/// and height. Nothing is claimed of columns that do not fit.
#[verifier::external_body]
pub(crate) fn split_columns(area: Region, count: usize, width: u16) -> (columns: Vec<Region>)
    requires
        width >= 1,
        count * width <= area.spec_span(),
    ensures
        columns@ == spec_columns(area, count as nat, width as int),
{
    let rect = Rect { x: area.x, y: area.y, width: area.width, height: area.height };
    Layout::horizontal(vec![Constraint::Length(width); count])
        .split(rect)
        .iter()
        .map(|part| Region { x: part.x, y: part.y, width: part.width, height: part.height })
        .collect()
}

} // verus!
