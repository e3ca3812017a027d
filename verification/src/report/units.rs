//! Page geometry and the fixed-point units of the layout.
//!
//! Positions and extents on a page are fractions of the page's width or height, counted in
//! millionths: `UNIT` is the whole width or the whole height. Heights are measured from the
//! bottom edge, so larger values lie nearer the top. Absolute lengths, font sizes among
//! them, are counted in thousandths of a point.

use vstd::prelude::*;

verus! {

/// The whole page width, or the whole page height, as a fraction.
pub const UNIT: i64 = 1_000_000;

/// The largest magnitude of a fraction that can be placed on a page.
pub const MAX_FRACTION: i64 = 1_000_000_000_000_000;

/// The height below which no content is placed.
pub const BOTTOM_MARGIN: i64 = 100_000;

/// The height at which content starts on a fresh page.
pub const TOP_MARGIN: i64 = 900_000;

/// Padding between normal lines of text.
pub const LINE_HEIGHT_PADDING: i64 = 5_000;

/// Section header font size.
pub const SECTION_HEADER_FONT_SIZE: u32 = 24_000;

/// Sub-header for feature names.
pub const FEATURE_HEADER_FONT_SIZE: u32 = 14_000;

/// Normal text font size.
pub const FONT_SIZE: u32 = 12_000;

/// The size of the pages of a document, in thousandths of a point.
#[derive(Clone, Copy, Debug, PartialEq, Eq)]
pub struct PageGeometry {
    /// The width of every page.
    pub width: u32,
    /// The height of every page.
    pub height: u32,
}

/// Whether `fraction` is small enough in magnitude to be placed.
pub open spec fn placeable(fraction: int) -> bool {
    -MAX_FRACTION <= fraction <= MAX_FRACTION
}

/// The absolute length that `fraction` of `extent` comes to, rounded toward zero.
pub open spec fn scaled(fraction: int, extent: int) -> int {
    if fraction >= 0 {
        fraction * extent / (UNIT as int)
    } else {
        -((-fraction) * extent / (UNIT as int))
    }
}

/// The fraction of `extent` that the absolute length `points` comes to, rounded down.
pub open spec fn fraction_of(points: int, extent: int) -> int {
    points * UNIT / extent
}

impl PageGeometry {
    /// A page has a width and a height.
    pub open spec fn wf(&self) -> bool {
        self.width > 0 && self.height > 0
    }

    /// ISO 216 A4 in portrait: 210 x 297 mm.
    pub fn a4() -> (geometry: PageGeometry)
        ensures
            geometry.wf(),
            geometry.width == 595_276,
            geometry.height == 841_890,
    {
        PageGeometry { width: 595_276, height: 841_890 }
    }

    /// Maps a position given in page fractions to absolute page units.
    pub fn to_absolute(&self, x_fraction: i64, y_fraction: i64) -> (position: (i64, i64))
        requires
            placeable(x_fraction as int),
            placeable(y_fraction as int),
        ensures
            position.0 == scaled(x_fraction as int, self.width as int),
            position.1 == scaled(y_fraction as int, self.height as int),
    {
        (scale(x_fraction, self.width), scale(y_fraction, self.height))
    }

    /// The height of `points` as a fraction of the page height.
    pub fn height_fraction(&self, points: u32) -> (fraction: i64)
        requires
            self.wf(),
        ensures
            fraction == fraction_of(points as int, self.height as int),
            0 <= fraction <= points * UNIT,
    {
        let scaled_up: u64 = (points as u64) * (UNIT as u64);
        let height: u64 = self.height as u64;
        let fraction: u64 = scaled_up / height;
        assert(fraction <= scaled_up) by (nonlinear_arith)
            requires
                fraction == scaled_up / height,
                height >= 1,
        ;
        fraction as i64
    }
}

fn scale(fraction: i64, extent: u32) -> (length: i64)
    requires
        placeable(fraction as int),
    ensures
        length == scaled(fraction as int, extent as int),
{
    let magnitude: u128 = if fraction >= 0 {
        fraction as u128
    } else {
        (-fraction) as u128
    };
    assert(magnitude * extent <= MAX_FRACTION * 0x1_0000_0000) by (nonlinear_arith)
        requires
            magnitude <= MAX_FRACTION,
            extent < 0x1_0000_0000,
    ;
    let product: u128 = magnitude * (extent as u128);
    let quotient: u128 = product / (UNIT as u128);
    assert(quotient <= MAX_FRACTION * 0x1_0000_0000 / 1_000_000) by (nonlinear_arith)
        requires
            quotient == product / 1_000_000,
            product <= MAX_FRACTION * 0x1_0000_0000,
    ;
    if fraction >= 0 {
        quotient as i64
    } else {
        -(quotient as i64)
    }
}

} // verus!
