//! What the plots of a report share: their size, their fonts and margins, and what can go
//! wrong when one is drawn.

use vstd::prelude::*;
use vstd::string::*;

pub mod missing_value_viz;

verus! {

/// The width of a plot, in pixels.
pub const PLOT_WIDTH: u32 = 1200;

/// The height of a plot, in pixels.
pub const PLOT_HEIGHT: u32 = 800;

/// The font family of the plots.
pub const _FONT: &'static str = "sans-serif";

/// The font of the caption of a plot: its family and its size.
pub const PLOT_CAPTION_FONT: (&'static str, u32) = (_FONT, 35);

/// The margin around a plot, in pixels.
pub const PLOT_MARGIN: u32 = 10;

/// The height of the area of the labels of the horizontal axis, in pixels.
pub const X_LABEL_AREA_SIZE: u32 = 50;

/// The width of the area of the labels of the vertical axis, in pixels.
pub const Y_LABEL_AREA_SIZE: u32 = 80;

/// The font of the labels of the axes: its family and its size.
pub const LABEL_STYLE: (&'static str, u32) = (_FONT, 16);

/// The error types for drawing.
#[derive(Clone, Debug, PartialEq, Eq)]
pub enum DrawingError {
    /// Error filling BitMap Backend.
    FillBackgroundError(String),
    /// Error creating basic chart template.
    ChartTemplateError(String),
}

impl DrawingError {
    /// The text of the error, as it is shown.
    pub open spec fn text(&self) -> Seq<char> {
        match self {
            DrawingError::FillBackgroundError(detail) => {
                "Error filling background color: "@ + detail@
            },
            DrawingError::ChartTemplateError(detail) => {
                "Error creating chart template: "@ + detail@
            },
        }
    }

    /// The text of the error, as it is shown.
    pub fn message(&self) -> (message: String)
        ensures
            message@ == self.text(),
    {
        match self {
            DrawingError::FillBackgroundError(detail) => String::from_str(
                "Error filling background color: ",
            ).concat(detail.as_str()),
            DrawingError::ChartTemplateError(detail) => String::from_str(
                "Error creating chart template: ",
            ).concat(detail.as_str()),
        }
    }
}

} // verus!
