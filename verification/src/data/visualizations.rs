//! Visualization Module
//!
//! This module names the sections of a report that visualizations are made for, and what
//! can go wrong when they are made.

use crate::data::viz_lib::missing_value_viz::MissingValuesPlotError;
use vstd::prelude::*;
use vstd::string::*;

verus! {

/// The error types for the visualization module.
#[derive(Clone, Debug, PartialEq, Eq)]
pub enum VisualizationError {
    /// Occurs when sampling the lazy frame fails.
    DataFrameSamplingError(String),
    /// Occurs when creating the missing values plots fails.
    MissingValuesPlotting(MissingValuesPlotError),
}

/// Enum to represent which section each visualization corresponds to.
#[derive(Clone, Copy, Debug, Hash, PartialEq, Eq, Structural)]
pub enum ReportSection {
    /// The missing values analysis section.
    MissingValues,
}

impl VisualizationError {
    /// The text of the error, as it is shown.
    pub open spec fn text(&self) -> Seq<char> {
        match self {
            VisualizationError::DataFrameSamplingError(detail) => {
                "Error sampling the dataframe: "@ + detail@
            },
            VisualizationError::MissingValuesPlotting(inner) => {
                "Missing values plot error: "@ + inner.text()
            },
        }
    }

    /// The text of the error, as it is shown.
    pub fn message(&self) -> (message: String)
        ensures
            message@ == self.text(),
    {
        match self {
            VisualizationError::DataFrameSamplingError(detail) => String::from_str(
                "Error sampling the dataframe: ",
            ).concat(detail.as_str()),
            VisualizationError::MissingValuesPlotting(inner) => String::from_str(
                "Missing values plot error: ",
            ).concat(inner.message().as_str()),
        }
    }
}

} // verus!
