//! One bar of the equalizer and the number of rows it fills.
//!
//! A band's value is a double-precision number, kept as its IEEE 754 bit
//! pattern: one sign bit, eleven exponent bits, fifty-two fraction bits. All
//! reasoning about it is done on integers, so the number of filled rows is the
//! exact product of value and height, rounded down, with no rounding in between.
use vstd::prelude::*;
use vstd::arithmetic::power2::{lemma2_to64, lemma2_to64_rest, lemma_pow2_pos, lemma_pow2_strictly_increases, pow2};
use vstd::bits::lemma_u128_shr_is_div;
use ratatui::buffer::Buffer;
use crate::buffer::{buffer_cells, has_cell, paint_cell, spec_painted, CellView};
use crate::gradient::{gradient, spec_gradient, Rgb};
use crate::region::Region;

verus! {

/// 2 to the power 52: the weight of the exponent field in the bit pattern, and
/// the leading bit that a normal number's significand has on top of its fraction.
pub const HIDDEN_BIT: u64 = 0x0010_0000_0000_0000;

/// The bit pattern of 1.0.
pub const ONE: u64 = 0x3FF0_0000_0000_0000;

/// The bit pattern of positive infinity. Above it, and below [`SIGN_BIT`], lie
/// the positive NaNs.
pub const INFINITY: u64 = 0x7FF0_0000_0000_0000;

/// The sign bit. A bit pattern at or above it is a negative number, negative
/// zero or a negative NaN.
pub const SIGN_BIT: u64 = 0x8000_0000_0000_0000;

/// The symbol that fills a cell of a bar.
pub const GLYPH: &'static str = "⯀";

/// A single frequency band: the height of one bar, where 1.0 is the full column.
#[derive(Clone, Copy, Debug, PartialEq, Eq, Structural)]
pub struct Band {
    /// The normalized value as the bit pattern of an IEEE 754 double, as
    /// `f64::to_bits` gives it. Values outside 0.0 to 1.0 are accepted and
    /// held to that range when the band is drawn.
    pub value: u64,
}

impl From<u64> for Band {
    /// The band whose value has the bit pattern `value`.
    fn from(value: u64) -> (band: Band) {
        Band { value }
    }
}

impl vstd::std_specs::convert::FromSpecImpl<u64> for Band {
    open spec fn obeys_from_spec() -> bool {
        true
    }

    open spec fn from_spec(value: u64) -> Band {
        Band { value }
    }
}

impl Band {
    /// The exponent field of the bit pattern.
    pub open spec fn biased_exponent(self) -> int {
        (self.value as int / 0x0010_0000_0000_0000) % 2048
    }

    /// The fraction field of the bit pattern.
    pub open spec fn fraction(self) -> int {
        self.value as int % 0x0010_0000_0000_0000
    }

    /// Whether the sign bit is set.
    pub open spec fn is_negative(self) -> bool {
        self.value >= 0x8000_0000_0000_0000
    }

    /// Whether the value is not a number.
    pub open spec fn is_nan(self) -> bool {
        self.biased_exponent() == 2047 && self.fraction() != 0
    }

    /// Whether the value is an infinity.
    pub open spec fn is_infinite(self) -> bool {
        self.biased_exponent() == 2047 && self.fraction() == 0
    }

    /// The significand `m` of a finite value, whose magnitude is
    /// `m * 2^exponent`. Subnormal numbers have no hidden bit.
    pub open spec fn significand(self) -> nat {
        if self.biased_exponent() == 0 {
            self.fraction() as nat
        } else {
            (0x0010_0000_0000_0000 + self.fraction()) as nat
        }
    }

    /// The power of two `e` of a finite value, whose magnitude is
    /// `significand * 2^e`.
    pub open spec fn exponent(self) -> int {
        if self.biased_exponent() == 0 {
            -1074
        } else {
            self.biased_exponent() - 1075
        }
    }

    /// Whether the value is a number and `value <= 0`.
    pub open spec fn is_at_most_zero(self) -> bool {
        !self.is_nan() && (self.is_negative() || self.significand() == 0)
    }

    /// Whether the value is a number and `value >= 1`.
    pub open spec fn is_at_least_one(self) -> bool {
        &&& !self.is_nan()
        &&& !self.is_negative()
        &&& (self.is_infinite() || if self.exponent() >= 0 {
            self.significand() >= 1
        } else {
            self.significand() >= pow2((-self.exponent()) as nat)
        })
    }

    /// The value held to the range from 0 to 1, as the numerator and the
    /// denominator of a fraction. A NaN counts as 0.
    pub open spec fn clamped(self) -> (nat, nat) {
        if self.is_nan() || self.is_at_most_zero() {
            (0, 1)
        } else if self.is_at_least_one() {
            (1, 1)
        } else {
            (self.significand(), pow2((-self.exponent()) as nat))
        }
    }

    /// The number of rows that the band fills in a column of `height` rows: the
    /// clamped value times `height`, rounded down.
    pub open spec fn spec_filled_rows(self, height: nat) -> nat {
        (self.clamped().0 * height) / self.clamped().1
    }

    /// The number of rows, from the foot of a column of `height` rows, that the
    /// band fills.
    pub fn filled_rows(&self, height: u16) -> (rows: u16)
        ensures
            rows == self.spec_filled_rows(height as nat),
            rows <= height,
    {
        let bits: u64 = self.value;
        proof {
            lemma2_to64();
            lemma2_to64_rest();
        }
        if bits >= SIGN_BIT || bits > INFINITY || bits == 0 {
            // Negative, a NaN, or zero.
            proof {
                if bits < SIGN_BIT && bits > INFINITY {
                    assert(self.biased_exponent() == 2047);
                    assert(self.fraction() != 0);
                }
                assert(self.is_nan() || self.is_at_most_zero());
                assert(self.clamped() == (0nat, 1nat));
                assert((0 * height as nat) / 1 == 0);
            }
            return 0;
        }
        if bits >= ONE {
            proof {
                self.lemma_bits_at_least_one();
                assert(self.clamped() == (1nat, 1nat));
                assert((1 * height as nat) / 1 == height);
            }
            return height;
        }
        let field: u64 = bits / HIDDEN_BIT;
        let fraction: u64 = bits % HIDDEN_BIT;
        let significand: u64 = if field == 0 { fraction } else { HIDDEN_BIT + fraction };
        let shift: u64 = if field == 0 { 1074 } else { 1075 - field };
        proof {
            assert(self.biased_exponent() == field);
            assert(self.significand() == significand);
            assert(self.exponent() == -shift);
            assert(significand > 0);
            assert(53 <= shift <= 1074);
            lemma_pow2_pos(shift as nat);
            if shift > 53 {
                lemma_pow2_strictly_increases(53, shift as nat);
            }
            assert(significand < pow2(shift as nat));
            assert(self.clamped() == (significand as nat, pow2(shift as nat)));
            lemma_scaled_fraction(significand as int, pow2(shift as nat) as int, height as int);
        }
        if shift >= 69 {
            proof {
                if shift > 69 {
                    lemma_pow2_strictly_increases(69, shift as nat);
                }
                assert(pow2(69) == 0x20_0000_0000_0000_0000) by {
                    vstd::arithmetic::power2::lemma_pow2_adds(64, 5);
                }
                assert(significand * height < 0x20_0000_0000_0000_0000) by (nonlinear_arith)
                    requires
                        significand < 0x20_0000_0000_0000,
                        height < 0x1_0000,
                ;
                vstd::arithmetic::div_mod::lemma_basic_div(
                    significand * height,
                    pow2(shift as nat) as int,
                );
            }
            return 0;
        }
        assert(significand * height < 0x20_0000_0000_0000_0000) by (nonlinear_arith)
            requires
                significand < 0x20_0000_0000_0000,
                height < 0x1_0000,
        ;
        let product: u128 = (significand as u128) * (height as u128);
        let shift_wide: u128 = shift as u128;
        proof {
            lemma_u128_shr_is_div(product, shift_wide);
        }
        (product >> shift_wide) as u16
    }

    /// The cells of a buffer after the band is drawn into `area`: a bar in the
    /// leftmost column of `area`, as many rows high as the band fills.
    pub open spec fn spec_render(self, area: Region, cells: Map<(u16, u16), CellView>) -> Map<
        (u16, u16),
        CellView,
    > {
        spec_bar(area, self.spec_filled_rows(area.height as nat), cells)
    }

    /// Draws the band into `area` of `buf`: a bar in the leftmost column of
    /// `area`, from its bottom row up, as many rows high as the band fills.
    /// Each cell of the bar gets [`GLYPH`] and the gradient's colour for its
    /// row. Cells that the buffer does not hold are passed over.
    pub fn render(self, area: Region, buf: &mut Buffer)
        ensures
            buffer_cells(*final(buf)) == self.spec_render(area, buffer_cells(*old(buf))),
            self.spec_filled_rows(area.height as nat) == 0 ==> *final(buf) == *old(buf),
    {
        let height: u16 = self.filled_rows(area.height);
        let x: u16 = area.left();
        let bottom: u16 = area.bottom();
        let mut row: u16 = 0;
        assert(buffer_cells(*buf) =~= spec_bar(area, 0, buffer_cells(*old(buf))));
        while row < height
            invariant
                row <= height <= area.height,
                x == area.x,
                bottom == area.spec_bottom(),
                buffer_cells(*buf) == spec_bar(area, row as nat, buffer_cells(*old(buf))),
                height == 0 ==> *buf == *old(buf),
            decreases height - row,
        {
            let y: u16 = bottom.saturating_sub(row + 1);
            if has_cell(buf, x, y) {
                paint_cell(buf, x, y, GLYPH, gradient(row, area.height));
            }
            assert(buffer_cells(*buf) =~= spec_bar(
                area,
                (row + 1) as nat,
                buffer_cells(*old(buf)),
            ));
            row += 1;
        }
    }

    /// A bit pattern from that of 1.0 up to that of positive infinity is a
    /// value of at least one.
    proof fn lemma_bits_at_least_one(self)
        requires
            ONE <= self.value <= INFINITY,
        ensures
            self.is_at_least_one(),
            !self.is_at_most_zero(),
    {
        lemma2_to64();
        lemma2_to64_rest();
        let field = self.biased_exponent();
        assert(1023 <= field <= 2047);
        if field < 2047 && field < 1075 {
            let shift = (1075 - field) as nat;
            if shift < 52 {
                lemma_pow2_strictly_increases(shift, 52);
            }
        }
    }
}

/// The glyph is the one character U+2BC0, a black square centred.
pub proof fn lemma_glyph()
    ensures
        GLYPH@ == seq!['\u{2BC0}'],
{
    reveal_strlit("⯀");
    assert(GLYPH@ =~= seq!['\u{2BC0}']);
}

/// The colour that a bar of `rows` rows in `column` has at column `x`, row `y`:
/// none outside the bar, and inside it the colour of the cell's row, counted
/// from the bottom of `column`.
pub open spec fn spec_bar_color(column: Region, rows: nat, x: int, y: int) -> Option<Rgb> {
    let bottom = column.spec_bottom();
    if x == column.x && bottom - rows <= y < bottom {
        Some(spec_gradient(bottom - 1 - y, column.height as int))
    } else {
        None
    }
}

/// The cells of a buffer after a bar of `rows` rows is drawn into `column`: the
/// buffer holds the same positions, each cell of the bar has got the glyph and
/// the bar's colour there, and every other cell is as it was.
pub open spec fn spec_bar(column: Region, rows: nat, cells: Map<(u16, u16), CellView>) -> Map<
    (u16, u16),
    CellView,
> {
    Map::new(
        |at: (u16, u16)| cells.dom().contains(at),
        |at: (u16, u16)|
            match spec_bar_color(column, rows, at.0 as int, at.1 as int) {
                Some(color) => spec_painted(cells[at], GLYPH@, color),
                None => cells[at],
            },
    )
}

/// The filled rows are the value, held to the range from 0 to 1, times the
/// height, rounded down: with the clamped value `n / d`, the count `rows` is
/// the whole number with `rows <= n * height / d < rows + 1`. Whatever the
/// value, it is never more than `height`.
pub proof fn lemma_filled_rows_floor(band: Band, height: nat)
    ensures
        band.clamped().1 > 0,
        band.clamped().0 <= band.clamped().1,
        band.spec_filled_rows(height) * band.clamped().1 <= band.clamped().0 * height,
        band.clamped().0 * height < (band.spec_filled_rows(height) + 1) * band.clamped().1,
        band.spec_filled_rows(height) <= height,
{
    let (n, d) = band.clamped();
    if !(band.is_nan() || band.is_at_most_zero()) && !band.is_at_least_one() {
        lemma_pow2_pos((-band.exponent()) as nat);
    }
    lemma_scaled_fraction(n as int, d as int, height as int);
}

/// A value of zero or less fills no row, and a value of one or more fills the
/// whole column.
pub proof fn lemma_filled_rows_extremes(band: Band, height: nat)
    ensures
        band.is_at_most_zero() ==> band.spec_filled_rows(height) == 0,
        band.is_at_least_one() ==> band.spec_filled_rows(height) == height,
{
    if band.is_at_most_zero() {
        if band.exponent() < 0 {
            lemma_pow2_pos((-band.exponent()) as nat);
        }
        assert(!band.is_at_least_one());
        assert((0 * height) / 1 == 0);
    } else if band.is_at_least_one() {
        assert((1 * height) / 1 == height);
    }
}

/// A fraction below one of a whole number of rows, rounded down, is the
/// quotient `rows` with `rows <= n * height / d < rows + 1`, and fewer rows
/// than `height` allows.
proof fn lemma_scaled_fraction(n: int, d: int, height: int)
    by (nonlinear_arith)
    requires
        0 <= n <= d,
        0 < d,
        0 <= height,
    ensures
        0 <= (n * height) / d <= height,
        ((n * height) / d) * d <= n * height < ((n * height) / d + 1) * d,
{
    let x = n * height;
    assert(x == d * (x / d) + x % d && 0 <= x % d < d);
    assert(x <= d * height);
    if x / d > height {
        assert(d * (x / d) >= d * (height + 1));
    }
}

} // verus!
