//! The title page of the report.

use crate::LeadsError;
use crate::report::fonts::Font;
use crate::report::layout::Layout;
use crate::report::pdf::{PageManager, PdfError};
use vstd::prelude::*;
use vstd::string::*;

verus! {

/// The version of the crate, as the title page gives it.
pub const VERSION: &'static str = "0.0.1";

/// `chrono::Local::now` and `DateTime::format`: the date of today in local time, written
/// as the name of the month, the day and the year. Nothing is claimed of the text.
#[verifier::external_body]
pub(crate) fn today() -> (date: String) {
    chrono::Local::now().format("%B %d, %Y").to_string()
}

impl Layout {
    /// The layout with the title page added at the end: the title of the report in two
    /// lines, a rule, the title of the dataset, two lines of description, the date and the
    /// version. Nothing where the document is full.
    pub open spec fn title_page(self, data_title: Seq<char>, date: Seq<char>) -> Option<Layout> {
        match self.new_page() {
            None => None,
            Some(opened) => Some(
                opened.black_text(
                    "Exploratory Data"@,
                    Font::Bold,
                    48_000,
                    100_000,
                    900_000,
                ).black_text("Analysis Report"@, Font::Bold, 48_000, 100_000, 830_000).line(
                    100_000,
                    800_000,
                    900_000,
                    800_000,
                    2_000,
                ).black_text(
                    "Dataset: "@ + data_title,
                    Font::Regular,
                    24_000,
                    100_000,
                    750_000,
                ).black_text(
                    "This report provides a comprehensive exploratory analysis of the dataset,"@,
                    Font::Regular,
                    14_000,
                    100_000,
                    650_000,
                ).black_text(
                    "including statistical summaries, outliers, visualizations, and key insights."@,
                    Font::Regular,
                    14_000,
                    100_000,
                    620_000,
                ).black_text(
                    "Generated on: "@ + date,
                    Font::Regular,
                    12_000,
                    100_000,
                    200_000,
                ).black_text(
                    "LEADS version: "@ + VERSION@,
                    Font::Regular,
                    12_000,
                    100_000,
                    170_000,
                ),
            ),
        }
    }
}

impl PageManager {
    /// Create the report title page, with the given date on it.
    pub fn create_dated_title_page(&mut self, data_title: &str, date: &str) -> (done: Result<
        (),
        LeadsError,
    >)
        requires
            old(self).wf(),
        ensures
            final(self).wf(),
            final(self)@.pages.len() >= old(self)@.pages.len(),
            final(self)@.sections == old(self)@.sections,
            match done {
                Ok(()) => old(self)@.title_page(data_title@, date@) == Some(final(self)@),
                Err(LeadsError::Report(error)) => error == PdfError::PageLimit && old(
                    self,
                )@.title_page(data_title@, date@) is None,
                Err(_) => false,
            },
    {
        match self.new_page() {
            Ok(()) => {},
            Err(error) => {
                return Err(LeadsError::Report(error));
            },
        }

        // Add main document title.
        self.add_text("Exploratory Data", Font::Bold, 48_000, 100_000, 900_000, None);
        self.add_text("Analysis Report", Font::Bold, 48_000, 100_000, 830_000, None);

        // Add a horizontal line.
        self.add_line(100_000, 800_000, 900_000, 800_000, 2_000);

        // Add dataset subtitle.
        self.add_text(
            String::from_str("Dataset: ").concat(data_title).as_str(),
            Font::Regular,
            24_000,
            100_000,
            750_000,
            None,
        );

        // Add a brief description of the report.
        self.add_text(
            "This report provides a comprehensive exploratory analysis of the dataset,",
            Font::Regular,
            14_000,
            100_000,
            650_000,
            None,
        );
        self.add_text(
            "including statistical summaries, outliers, visualizations, and key insights.",
            Font::Regular,
            14_000,
            100_000,
            620_000,
            None,
        );

        // Add date.
        self.add_text(
            String::from_str("Generated on: ").concat(date).as_str(),
            Font::Regular,
            12_000,
            100_000,
            200_000,
            None,
        );

        // Add crate version.
        self.add_text(
            String::from_str("LEADS version: ").concat(VERSION).as_str(),
            Font::Regular,
            12_000,
            100_000,
            170_000,
            None,
        );

        Ok(())
    }

    /// Create the report title page, with the date of today on it.
    pub fn create_title_page(&mut self, data_title: &str) -> (done: Result<(), LeadsError>)
        requires
            old(self).wf(),
        ensures
            final(self).wf(),
            final(self)@.pages.len() >= old(self)@.pages.len(),
            final(self)@.sections == old(self)@.sections,
            match done {
                Ok(()) => exists|date: Seq<char>|
                    #[trigger] old(self)@.title_page(data_title@, date) == Some(final(self)@),
                Err(LeadsError::Report(error)) => error == PdfError::PageLimit && old(
                    self,
                )@.new_page() is None,
                Err(_) => false,
            },
    {
        let date = today();
        self.create_dated_title_page(data_title, date.as_str())
    }
}

} // verus!
