//! # LEADS Crate
//!
//! LEADS is a **L**azy **E**xploratory **A**nalysis **D**ata **S**ummarizer.
//!
//! Writing the same boilerplate exploratory analysis code in a notebook or spreadsheet for
//! each new dataset can be tedious. This crate lays out the results of an automatic
//! exploratory analysis of a dataset as a paginated report with a table of contents and a
//! glossary.

use crate::data::base::DataError;
use crate::data::descriptive::DescriptiveError;
use crate::data::missing_values::MissingValueError;
use crate::data::visualizations::VisualizationError;
use crate::report::pdf::PdfError;
use vstd::prelude::*;
use vstd::std_specs::convert::FromSpecImpl;
use vstd::string::*;

pub mod data;
pub mod ordered_map;
pub mod prelude;
pub mod report;

verus! {

/// LEADS result type alias, used for handling results throughout the crate.
///
/// It returns either a value of type `T` or a `LeadsError`.
pub type LeadsResult<T> = Result<T, LeadsError>;

/// High level errors in the LEADS crate.
#[derive(Clone, Debug, PartialEq, Eq)]
pub enum LeadsError {
    /// Error related to input/output operations.
    IOError(String),
    /// Errors from the base module.
    Data(DataError),
    /// Errors from the PDF report module.
    Report(PdfError),
    /// Errors from the descriptive analysis module.
    DescriptiveAnalysis(DescriptiveError),
    /// Errors from the missing values analysis module.
    MissingValuesAnalysis(MissingValueError),
    /// Errors from the visualiztion module.
    VisualizationError(VisualizationError),
}

impl LeadsError {
    /// The text of the error, as it is shown.
    pub open spec fn text(&self) -> Seq<char> {
        match self {
            LeadsError::IOError(detail) => "IO error -> "@ + detail@,
            LeadsError::Data(inner) => "Data error -> "@ + inner.text(),
            LeadsError::Report(inner) => "Report error -> "@ + inner.text(),
            LeadsError::DescriptiveAnalysis(inner) => {
                "Descriptive analysis error -> "@ + inner.text()
            },
            LeadsError::MissingValuesAnalysis(inner) => {
                "Missing values analysis error -> "@ + inner.text()
            },
            LeadsError::VisualizationError(inner) => "Visualizations error -> "@ + inner.text(),
        }
    }

    /// The text of the error, as it is shown.
    pub fn message(&self) -> (message: String)
        ensures
            message@ == self.text(),
    {
        match self {
            LeadsError::IOError(detail) => String::from_str("IO error -> ").concat(detail.as_str()),
            LeadsError::Data(inner) => String::from_str(
                "Data error -> ",
            ).concat(inner.message().as_str()),
            LeadsError::Report(inner) => String::from_str(
                "Report error -> ",
            ).concat(inner.message().as_str()),
            LeadsError::DescriptiveAnalysis(inner) => String::from_str(
                "Descriptive analysis error -> ",
            ).concat(inner.message().as_str()),
            LeadsError::MissingValuesAnalysis(inner) => String::from_str(
                "Missing values analysis error -> ",
            ).concat(inner.message().as_str()),
            LeadsError::VisualizationError(inner) => String::from_str(
                "Visualizations error -> ",
            ).concat(inner.message().as_str()),
        }
    }
}

impl From<DataError> for LeadsError {
    fn from(error: DataError) -> (converted: LeadsError) {
        LeadsError::Data(error)
    }
}

impl FromSpecImpl<DataError> for LeadsError {
    open spec fn obeys_from_spec() -> bool {
        true
    }

    open spec fn from_spec(error: DataError) -> LeadsError {
        LeadsError::Data(error)
    }
}

impl From<PdfError> for LeadsError {
    fn from(error: PdfError) -> (converted: LeadsError) {
        LeadsError::Report(error)
    }
}

impl FromSpecImpl<PdfError> for LeadsError {
    open spec fn obeys_from_spec() -> bool {
        true
    }

    open spec fn from_spec(error: PdfError) -> LeadsError {
        LeadsError::Report(error)
    }
}

impl From<DescriptiveError> for LeadsError {
    fn from(error: DescriptiveError) -> (converted: LeadsError) {
        LeadsError::DescriptiveAnalysis(error)
    }
}

impl FromSpecImpl<DescriptiveError> for LeadsError {
    open spec fn obeys_from_spec() -> bool {
        true
    }

    open spec fn from_spec(error: DescriptiveError) -> LeadsError {
        LeadsError::DescriptiveAnalysis(error)
    }
}

impl From<MissingValueError> for LeadsError {
    fn from(error: MissingValueError) -> (converted: LeadsError) {
        LeadsError::MissingValuesAnalysis(error)
    }
}

impl FromSpecImpl<MissingValueError> for LeadsError {
    open spec fn obeys_from_spec() -> bool {
        true
    }

    open spec fn from_spec(error: MissingValueError) -> LeadsError {
        LeadsError::MissingValuesAnalysis(error)
    }
}

impl From<VisualizationError> for LeadsError {
    fn from(error: VisualizationError) -> (converted: LeadsError) {
        LeadsError::VisualizationError(error)
    }
}

impl FromSpecImpl<VisualizationError> for LeadsError {
    open spec fn obeys_from_spec() -> bool {
        true
    }

    open spec fn from_spec(error: VisualizationError) -> LeadsError {
        LeadsError::VisualizationError(error)
    }
}

} // verus!
