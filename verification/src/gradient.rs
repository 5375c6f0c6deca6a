//! The colour of a bar, row by row: green at the foot, yellow half way up the
//! column, red at its top.
use vstd::prelude::*;

verus! {

/// A colour by its red, green and blue channels.
#[derive(Clone, Copy, Debug, PartialEq, Eq, Structural)]
pub struct Rgb {
    pub r: u8,
    pub g: u8,
    pub b: u8,
}

/// The red channel of row `row`, counted from the foot, in a column of `height`
/// rows. With `v = row / height`, it is `v * 2 * 255` rounded down while
/// `v < 1/2`, and 255 from there on.
pub open spec fn spec_red(row: int, height: int) -> int {
    if 2 * row < height {
        (510 * row) / height
    } else {
        255
    }
}

/// The green channel of row `row` in a column of `height` rows. With
/// `v = row / height`, it is 255 while `v < 1/2`, then `(1 - v) * 2 * 255`
/// rounded down, and 0 where `v` has passed 1.
pub open spec fn spec_green(row: int, height: int) -> int {
    if 2 * row < height {
        255
    } else if row < height {
        (510 * (height - row)) / height
    } else {
        0
    }
}

/// How far along the way from green (0) over yellow (255) to red (510) the
/// colour of row `row` stands.
pub open spec fn spec_warmth(row: int, height: int) -> int {
    spec_red(row, height) + (255 - spec_green(row, height))
}

/// The colour of row `row` in a column of `height` rows.
pub open spec fn spec_gradient(row: int, height: int) -> Rgb {
    Rgb { r: spec_red(row, height) as u8, g: spec_green(row, height) as u8, b: 0 }
}

/// Both channels stay within a byte, and one of them is always at its full
/// value: the colour lies on the way from green over yellow to red.
pub proof fn lemma_gradient_on_path(row: int, height: int)
    requires
        0 <= row,
    ensures
        0 <= spec_red(row, height) <= 255,
        0 <= spec_green(row, height) <= 255,
        spec_red(row, height) == 255 || spec_green(row, height) == 255,
        0 <= spec_warmth(row, height) <= 510,
{
    if 2 * row < height {
        assert(0 <= (510 * row) / height < 255) by (nonlinear_arith)
            requires
                0 <= row,
                2 * row < height,
        ;
    } else if row < height {
        assert(0 <= (510 * (height - row)) / height <= 255) by (nonlinear_arith)
            requires
                0 <= row < height,
                2 * row >= height,
        ;
    }
}

/// The foot of a column is green, the row half way up a column of an even
/// number of rows is yellow, and the top row is red with one step of green left.
pub proof fn lemma_gradient_marks(height: int)
    requires
        1 <= height,
    ensures
        spec_red(0, height) == 0 && spec_green(0, height) == 255,
        height % 2 == 0 ==> spec_red(height / 2, height) == 255 && spec_green(
            height / 2,
            height,
        ) == 255,
        2 <= height ==> spec_red(height - 1, height) == 255 && spec_green(height - 1, height)
            == 510int / height,
{
    assert((510 * 0int) / height == 0) by (nonlinear_arith)
        requires
            1 <= height,
    ;
    if height % 2 == 0 {
        let half = height / 2;
        assert((510 * (height - half)) / height == 255) by (nonlinear_arith)
            requires
                height == 2 * half,
                1 <= half,
        ;
    }
}

/// Rounding down a sum loses at most one more than rounding down its parts.
proof fn lemma_div_of_sum(x: int, y: int, d: int)
    by (nonlinear_arith)
    requires
        0 <= x,
        0 <= y,
        0 < d,
    ensures
        x / d + y / d <= (x + y) / d <= x / d + y / d + 1,
{
    assert(x == d * (x / d) + x % d && 0 <= x % d < d);
    assert(y == d * (y / d) + y % d && 0 <= y % d < d);
    let q = x / d + y / d;
    let r = x % d + y % d;
    assert(x + y == d * q + r);
    assert(0 <= r < 2 * d);
    if r < d {
        assert((d * q + r) / d == q);
    } else {
        assert(d * q + r == d * (q + 1) + (r - d));
        assert((d * (q + 1) + (r - d)) / d == q + 1);
    }
}

/// Going up the column the colour never turns back: red does not fall, green
/// does not rise, and the colour only moves on from green towards red.
pub proof fn lemma_gradient_monotone(lower: int, upper: int, height: int)
    requires
        0 <= lower <= upper,
    ensures
        spec_red(lower, height) <= spec_red(upper, height),
        spec_green(lower, height) >= spec_green(upper, height),
        spec_warmth(lower, height) <= spec_warmth(upper, height),
{
    lemma_gradient_on_path(lower, height);
    lemma_gradient_on_path(upper, height);
    if 2 * upper < height {
        assert((510 * lower) / height <= (510 * upper) / height) by (nonlinear_arith)
            requires
                0 <= lower <= upper,
                0 < height,
        ;
    } else if 2 * lower >= height && upper < height {
        assert((510 * (height - upper)) / height <= (510 * (height - lower)) / height)
            by (nonlinear_arith)
            requires
                0 <= lower <= upper < height,
        ;
    }
}

/// From one row to the next the colour moves on by no more than one step of
/// the gradient, `510 / height`, and what rounding adds to it: there is no jump.
pub proof fn lemma_gradient_step(row: int, height: int)
    requires
        0 <= row,
        row + 1 < height,
    ensures
        0 <= spec_red(row + 1, height) - spec_red(row, height) <= 510int / height + 2,
        0 <= spec_green(row, height) - spec_green(row + 1, height) <= 510int / height + 2,
        0 <= spec_warmth(row + 1, height) - spec_warmth(row, height) <= 510int / height + 2,
{
    lemma_gradient_monotone(row, row + 1, height);
    lemma_gradient_on_path(row, height);
    lemma_gradient_on_path(row + 1, height);
    if 2 * (row + 1) < height {
        lemma_div_of_sum(510 * row, 510, height);
    } else if 2 * row >= height {
        lemma_div_of_sum(510 * (height - (row + 1)), 510, height);
    } else {
        // The step over the middle of the column: red arrives at 255 and green
        // leaves it.
        lemma_div_of_sum(510 * row, 510 * (height - (row + 1)), height);
        lemma_div_of_sum(510 * (height - 1), 510, height);
        assert((510 * height) / height == 510) by (nonlinear_arith)
            requires
                0 < height,
        ;
    }
}

/// The colour of row `row`, counted from the foot, in a column of `height` rows.
pub fn gradient(row: u16, height: u16) -> (color: Rgb)
    ensures
        color == spec_gradient(row as int, height as int),
        color.r == spec_red(row as int, height as int),
        color.g == spec_green(row as int, height as int),
        color.b == 0,
{
    proof {
        lemma_gradient_on_path(row as int, height as int);
    }
    let row_wide: u32 = row as u32;
    let height_wide: u32 = height as u32;
    if 2 * row_wide < height_wide {
        let red: u32 = (510 * row_wide) / height_wide;
        Rgb { r: red as u8, g: 255, b: 0 }
    } else if row < height {
        let green: u32 = (510 * (height_wide - row_wide)) / height_wide;
        Rgb { r: 255, g: green as u8, b: 0 }
    } else {
        Rgb { r: 255, g: 0, b: 0 }
    }
}

} // verus!
