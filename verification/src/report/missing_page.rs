//! The pages of the missing values analysis: a table of the columns with the count and the
//! percentage of their missing values.

use crate::data::missing_values::{
    format_percentage, percentage_text, ColumnMissingValues, MissingValueAnalysis,
};
use crate::report::fonts::Font;
use crate::report::layout::Layout;
use crate::report::numerals::{decimal, decimal_text};
use crate::report::pdf::{PageManager, PdfError};
use crate::report::units::FONT_SIZE;
use vstd::prelude::*;

verus! {

impl Layout {
    /// The layout after one row of the table of missing values is written at height `y`,
    /// once room has been made for it; with it, the height for the next row.
    pub open spec fn missing_row(self, entry: ColumnMissingValues, y: int) -> Option<
        (Layout, int),
    > {
        let height = self.row_height(FONT_SIZE, 10_000);
        match self.room_for(y, height) {
            None => None,
            Some((layout, at)) => Some(
                (
                    layout.black_text(
                        entry.column@,
                        Font::Regular,
                        FONT_SIZE,
                        100_000,
                        at,
                    ).black_text(
                        decimal_text(entry.count as nat),
                        Font::Regular,
                        FONT_SIZE,
                        400_000,
                        at,
                    ).black_text(
                        percentage_text(entry.percentage),
                        Font::Regular,
                        FONT_SIZE,
                        700_000,
                        at,
                    ),
                    at - height,
                ),
            ),
        }
    }

    /// The layout after the rows for the entries from the `from`-th on are written.
    pub open spec fn missing_rows(self, entries: Seq<ColumnMissingValues>, from: int, y: int)
        -> Option<(Layout, int)>
        decreases entries.len() - from,
    {
        if from < 0 || from >= entries.len() {
            Some((self, y))
        } else {
            match self.missing_row(entries[from], y) {
                None => None,
                Some((layout, next_y)) => layout.missing_rows(entries, from + 1, next_y),
            }
        }
    }

    /// The layout with the section of the missing values added: its header, the headers of
    /// the three columns with a rule below them, and a row for each entry. Nothing where
    /// the document cannot hold the pages.
    pub open spec fn missing_values_page(self, entries: Seq<ColumnMissingValues>) -> Option<
        Layout,
    > {
        match self.begin_section("Missing Values Analysis"@) {
            None => None,
            Some(begun) => {
                let height = begun.row_height(FONT_SIZE, 10_000);
                let headed = begun.black_text(
                    "Feature"@,
                    Font::Bold,
                    FONT_SIZE,
                    100_000,
                    850_000,
                ).black_text("Missing Count"@, Font::Bold, FONT_SIZE, 400_000, 850_000).black_text(
                    "Missing Percentage"@,
                    Font::Bold,
                    FONT_SIZE,
                    700_000,
                    850_000,
                ).line(100_000, 830_000, 900_000, 830_000, 1_000);
                match headed.missing_rows(entries, 0, 850_000 - 2 * height) {
                    None => None,
                    Some((done, y)) => Some(done),
                }
            },
        }
    }
}

impl PageManager {
    /// Create the missing values analysis pages. A row is written only once there is room
    /// for it above the bottom margin: else it goes to the top of a new page.
    ///
    /// Fails where the document cannot hold the pages. The section is then recorded if its
    /// first page could be started, and no other record is changed.
    #[verifier::loop_isolation(false)]
    pub fn create_missing_values_page(&mut self, missing_values_analysis: &MissingValueAnalysis)
        -> (done: Result<(), PdfError>)
        requires
            old(self).wf(),
            old(self)@.pages.len() >= 1,
        ensures
            final(self).wf(),
            final(self)@.pages.len() >= old(self)@.pages.len(),
            final(self)@.sections == old(self)@.sections || final(self)@.sections
                == old(self)@.section_recorded("Missing Values Analysis"@),
            done is Ok ==> final(self)@.sections == old(self)@.section_recorded(
                "Missing Values Analysis"@,
            ),
            match done {
                Ok(()) => old(self)@.missing_values_page(
                    missing_values_analysis.column_missing_values@,
                ) == Some(final(self)@),
                Err(error) => error == PdfError::PageLimit && old(self)@.missing_values_page(
                    missing_values_analysis.column_missing_values@,
                ) is None,
            },
    {
        let ghost entries = missing_values_analysis.column_missing_values@;
        match self.start_section("Missing Values Analysis") {
            Ok(()) => {},
            Err(error) => {
                return Err(error);
            },
        }
        let mut y_fraction: i64 = 850_000;
        let line_height_fraction: i64 = self.document.geometry.height_fraction(FONT_SIZE) + 10_000;

        // Add table headers (Feature, Missing Count, Missing Percentage).
        self.add_text("Feature", Font::Bold, FONT_SIZE, 100_000, y_fraction, None);
        self.add_text("Missing Count", Font::Bold, FONT_SIZE, 400_000, y_fraction, None);
        self.add_text("Missing Percentage", Font::Bold, FONT_SIZE, 700_000, y_fraction, None);

        // Draw a separator line
        self.add_line(100_000, y_fraction - 20_000, 900_000, y_fraction - 20_000, 1_000);

        y_fraction -= 2 * line_height_fraction;
        let ghost headed = self@;

        let mut next: usize = 0;
        while next < missing_values_analysis.column_missing_values.len()
            invariant
                self.wf(),
                self@.pages.len() >= old(self)@.pages.len(),
                self@.geometry == headed.geometry,
                self@.sections == old(self)@.section_recorded("Missing Values Analysis"@),
                next <= entries.len(),
                -30_000_000_000 <= y_fraction <= 900_000,
                self@.missing_rows(entries, next as int, y_fraction as int) == headed.missing_rows(
                    entries,
                    0,
                    850_000 - 2 * line_height_fraction,
                ),
            decreases entries.len() - next,
        {
            let entry: &ColumnMissingValues = &missing_values_analysis.column_missing_values[next];
            y_fraction = match self.make_room(y_fraction, line_height_fraction) {
                Ok(y) => y,
                Err(error) => {
                    return Err(error);
                },
            };
            // Add column name.
            self.add_text(
                entry.column.as_str(),
                Font::Regular,
                FONT_SIZE,
                100_000,
                y_fraction,
                None,
            );

            // Add missing count.
            self.add_text(
                decimal(entry.count as u128).as_str(),
                Font::Regular,
                FONT_SIZE,
                400_000,
                y_fraction,
                None,
            );

            // Add missing percentage.
            self.add_text(
                format_percentage(entry.percentage).as_str(),
                Font::Regular,
                FONT_SIZE,
                700_000,
                y_fraction,
                None,
            );

            // Move to the next line.
            y_fraction -= line_height_fraction;
            next += 1;
        }

        Ok(())
    }
}

} // verus!
