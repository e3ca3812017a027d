//! Fonts and the measurement of text.
//!
//! A font is known to the layout by its metrics: the advance width of each character, in
//! thousandths of the font size. The width of a text is the sum of the widths of its
//! characters.

use crate::report::units::UNIT;
use vstd::prelude::*;
use vstd::string::*;

verus! {

/// The width that a measured text is capped at, as a fraction of the page width.
pub const MAX_WIDTH: i64 = 1_000_000_000_000;

/// The three faces that a report is set in.
#[derive(Clone, Copy, Debug, PartialEq, Eq, Structural)]
pub enum Font {
    /// The regular face.
    Regular,
    /// The bold face.
    Bold,
    /// The italic face.
    Italic,
}

/// The advance widths of one face, in thousandths of the font size.
#[derive(Clone, Debug)]
pub struct FontMetrics {
    /// The width of each character whose code is an index of this table.
    pub widths: Vec<u16>,
    /// The width of every other character.
    pub default_width: u16,
}

/// The metrics of the three faces.
#[derive(Clone, Debug)]
pub struct FontSet {
    /// The regular face.
    pub regular: FontMetrics,
    /// The bold face.
    pub bold: FontMetrics,
    /// The italic face.
    pub italic: FontMetrics,
}

impl FontMetrics {
    /// The advance width of `c`.
    pub open spec fn glyph_width(&self, c: char) -> nat {
        if (c as int) < self.widths@.len() {
            self.widths@[c as int] as nat
        } else {
            self.default_width as nat
        }
    }

    /// The sum of the advance widths of the characters of `text`.
    pub open spec fn units(&self, text: Seq<char>) -> nat
        decreases text.len(),
    {
        if text.len() == 0 {
            0
        } else {
            self.units(text.drop_last()) + self.glyph_width(text.last())
        }
    }

    /// Metrics that give every character the same width.
    pub fn uniform(width: u16) -> (metrics: FontMetrics)
        ensures
            metrics.widths@.len() == 0,
            metrics.default_width == width,
    {
        FontMetrics { widths: Vec::new(), default_width: width }
    }

    /// The advance width of `c`.
    pub fn glyph(&self, c: char) -> (width: u16)
        ensures
            width == self.glyph_width(c),
    {
        let code: usize = c as u32 as usize;
        if code < self.widths.len() {
            self.widths[code]
        } else {
            self.default_width
        }
    }

    /// The sum of the advance widths of the characters of `text`.
    pub fn measure(&self, text: &str) -> (total: u128)
        ensures
            total == self.units(text@),
            total <= text@.len() * 0xffff,
            text@.len() <= usize::MAX,
    {
        let length: usize = text.unicode_len();
        let mut total: u128 = 0;
        let chars = text.chars();
        for c in iter: chars
            invariant
                iter.seq() == text@,
                text@.len() == length,
                total == self.units(text@.take(iter.index() as int)),
                total <= iter.index() * 0xffff,
        {
            proof {
                let done = text@.take(iter.index() as int);
                let next = text@.take(iter.index() + 1);
                assert(next.drop_last() =~= done);
                assert(next.last() == c);
                assert(iter.index() < length);
            }
            total = total + (self.glyph(c) as u128);
        }
        assert(text@.take(text@.len() as int) =~= text@);
        total
    }
}

impl FontSet {
    /// The metrics of `font`.
    pub open spec fn of(&self, font: Font) -> FontMetrics {
        match font {
            Font::Regular => self.regular,
            Font::Bold => self.bold,
            Font::Italic => self.italic,
        }
    }

    /// A set whose three faces give every character the same width.
    pub fn uniform(width: u16) -> (fonts: FontSet)
        ensures
            fonts.regular.widths@.len() == 0 && fonts.regular.default_width == width,
            fonts.bold.widths@.len() == 0 && fonts.bold.default_width == width,
            fonts.italic.widths@.len() == 0 && fonts.italic.default_width == width,
    {
        FontSet {
            regular: FontMetrics::uniform(width),
            bold: FontMetrics::uniform(width),
            italic: FontMetrics::uniform(width),
        }
    }

    /// The metrics of `font`.
    pub fn metrics(&self, font: Font) -> (metrics: &FontMetrics)
        ensures
            *metrics == self.of(font),
    {
        match font {
            Font::Regular => &self.regular,
            Font::Bold => &self.bold,
            Font::Italic => &self.italic,
        }
    }
}

/// The width of a text of `units` thousandths of the font size, set at `size` on a page
/// `page_width` wide, as a fraction of that width and before the cap.
pub open spec fn exact_width(units: nat, size: u32, page_width: u32) -> int {
    units * size * UNIT / (1000 * page_width)
}

/// The width of `text` set in a face at `size`, as a fraction of the page width: the widths
/// of its characters added up, rounded down, and capped at `MAX_WIDTH`.
pub open spec fn text_width(metrics: FontMetrics, text: Seq<char>, size: u32, page_width: u32)
    -> int {
    let exact = exact_width(metrics.units(text), size, page_width);
    if exact <= MAX_WIDTH {
        exact
    } else {
        MAX_WIDTH as int
    }
}

/// Measures `text` set in a face at `size`, as a fraction of the page width.
pub fn measure_width(metrics: &FontMetrics, text: &str, size: u32, page_width: u32) -> (width:
    i64)
    requires
        page_width > 0,
    ensures
        width == text_width(*metrics, text@, size, page_width),
        0 <= width <= MAX_WIDTH,
{
    let units: u128 = metrics.measure(text);
    let divisor: u128 = 1000 * (page_width as u128);
    if size == 0 {
        assert(units * 0 * UNIT / (divisor as int) == 0) by (nonlinear_arith)
            requires
                divisor > 0,
        ;
        0
    } else if units >= 10_000_000_000_000_000_000 {
        assert(units * size * UNIT / (divisor as int) > MAX_WIDTH) by (nonlinear_arith)
            requires
                units >= 10_000_000_000_000_000_000,
                size >= 1,
                0 < divisor <= 1000 * 0xffff_ffff,
        ;
        MAX_WIDTH
    } else {
        assert(units * size <= 10_000_000_000_000_000_000 * 0xffff_ffff) by (nonlinear_arith)
            requires
                units <= 10_000_000_000_000_000_000,
                size <= 0xffff_ffff,
        ;
        let sized: u128 = units * (size as u128);
        assert(sized * UNIT <= 10_000_000_000_000_000_000 * 0xffff_ffff * 1_000_000)
            by (nonlinear_arith)
            requires
                sized <= 10_000_000_000_000_000_000 * 0xffff_ffff,
        ;
        let exact: u128 = sized * (UNIT as u128) / divisor;
        if exact <= MAX_WIDTH as u128 {
            exact as i64
        } else {
            MAX_WIDTH
        }
    }
}

} // verus!
