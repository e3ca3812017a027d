//! The pages of the data types overview: a striped table of the columns with their types
//! and the categories of these.

use crate::data::base::ColumnType;
use crate::report::document::Color;
use crate::report::fonts::Font;
use crate::report::glossary::{category_name, get_data_type_category, DataType};
use crate::report::layout::Layout;
use crate::report::pdf::{PageManager, PdfError};
use crate::report::text::texts;
use crate::report::units::FONT_SIZE;
use crate::report::wrap::{lemma_wrap_count, wrapped, Measure};
use vstd::prelude::*;
use vstd::string::*;

verus! {

/// The name of a category has sixteen characters at most.
pub proof fn lemma_category_short(data_type: DataType)
    ensures
        category_name(data_type).len() <= 16,
{
    reveal_strlit("Boolean");
    reveal_strlit("Numeric");
    reveal_strlit("Text");
    reveal_strlit("Binary");
    reveal_strlit("Date Time");
    reveal_strlit("Date");
    reveal_strlit("Time");
    reveal_strlit("Null");
    reveal_strlit("Array");
    reveal_strlit("List");
    reveal_strlit("Other or unknown");
}

impl Layout {
    /// What the lines of a category are measured with and against.
    pub open spec fn category_measure(self) -> Measure {
        Measure {
            metrics: self.fonts.of(Font::Regular),
            size: FONT_SIZE,
            page_width: self.geometry.width,
            available: 900_000 - 700_000,
        }
    }

    /// The layout with the lines from the `from`-th on written one below the other, the
    /// first of all at height `y` and each `height` below the one before.
    pub open spec fn stacked_lines(self, lines: Seq<Seq<char>>, from: int, y: int, height: int)
        -> Layout
        decreases lines.len() - from,
    {
        if from < 0 || from >= lines.len() {
            self
        } else {
            self.black_text(
                lines[from],
                Font::Regular,
                FONT_SIZE,
                700_000,
                y - from * height,
            ).stacked_lines(lines, from + 1, y, height)
        }
    }

    /// The layout after the row of a column is written at height `y`, once room has been
    /// made for three lines: the stripe behind it, if the row is striped, the name, the type
    /// and the category, the category wrapped; with it, the height for the next row, one
    /// line below the lines of the category.
    pub open spec fn data_type_row(self, column: ColumnType, striped: bool, y: int) -> Option<
        (Layout, int),
    > {
        let height = self.row_height(FONT_SIZE, 10_000);
        match self.room_for(y, 3 * height) {
            None => None,
            Some((layout, at)) => {
                let shaded = if striped {
                    layout.rectangle(100_000, at + height, 900_000, at - height, Color::stripe())
                } else {
                    layout
                };
                let lines = wrapped(category_name(column.data_type), self.category_measure());
                Some(
                    (
                        shaded.black_text(
                            column.name@,
                            Font::Regular,
                            FONT_SIZE,
                            110_000,
                            at,
                        ).black_text(
                            column.type_text@,
                            Font::Regular,
                            FONT_SIZE,
                            400_000,
                            at,
                        ).stacked_lines(lines, 0, at, height),
                        at - (lines.len() + 1) * height,
                    ),
                )
            },
        }
    }

    /// The layout after the rows for the columns from the `from`-th on are written; every
    /// other row is striped, the first of all among them, whatever page it falls on.
    pub open spec fn data_type_rows(self, columns: Seq<ColumnType>, from: int, y: int) -> Option<
        (Layout, int),
    >
        decreases columns.len() - from,
    {
        if from < 0 || from >= columns.len() {
            Some((self, y))
        } else {
            match self.data_type_row(columns[from], from % 2 == 0, y) {
                None => None,
                Some((layout, next_y)) => layout.data_type_rows(columns, from + 1, next_y),
            }
        }
    }

    /// The layout with the section of the data types added: its header, the headers of the
    /// three columns with a rule below them, and a row for each column. Nothing where the
    /// document cannot hold the pages.
    pub open spec fn data_types_page(self, columns: Seq<ColumnType>) -> Option<Layout> {
        match self.begin_section("Data Types Overview"@) {
            None => None,
            Some(begun) => {
                let height = begun.row_height(FONT_SIZE, 10_000);
                let headed = begun.black_text(
                    "Feature"@,
                    Font::Bold,
                    FONT_SIZE,
                    100_000,
                    850_000,
                ).black_text("Data Type"@, Font::Bold, FONT_SIZE, 400_000, 850_000).black_text(
                    "Category"@,
                    Font::Bold,
                    FONT_SIZE,
                    700_000,
                    850_000,
                ).line(100_000, 850_000 - height / 2, 900_000, 850_000 - height / 2, 1_000);
                match headed.data_type_rows(columns, 0, 850_000 - 2 * height) {
                    None => None,
                    Some((done, y)) => Some(done),
                }
            },
        }
    }
}

impl PageManager {
    /// Creates the column type overview page. A row is written only once there is room for
    /// three lines above the bottom margin: else it goes to the top of a new page.
    ///
    /// Fails where the document cannot hold the pages. The section is then recorded if its
    /// first page could be started, and no other record is changed.
    #[verifier::loop_isolation(false)]
    pub fn create_data_types_page(&mut self, column_types: &Vec<ColumnType>) -> (done: Result<
        (),
        PdfError,
    >)
        requires
            old(self).wf(),
            old(self)@.pages.len() >= 1,
        ensures
            final(self).wf(),
            final(self)@.pages.len() >= old(self)@.pages.len(),
            final(self)@.sections == old(self)@.sections || final(self)@.sections
                == old(self)@.section_recorded("Data Types Overview"@),
            done is Ok ==> final(self)@.sections == old(self)@.section_recorded(
                "Data Types Overview"@,
            ),
            match done {
                Ok(()) => old(self)@.data_types_page(column_types@) == Some(final(self)@),
                Err(error) => error == PdfError::PageLimit && old(self)@.data_types_page(
                    column_types@,
                ) is None,
            },
    {
        match self.start_section("Data Types Overview") {
            Ok(()) => {},
            Err(error) => {
                return Err(error);
            },
        }

        let y_start: i64 = 850_000;
        let column1_x: i64 = 100_000;
        let column2_x: i64 = 400_000;
        let column3_x: i64 = 700_000;
        let line_height: i64 = self.document.geometry.height_fraction(FONT_SIZE) + 10_000;

        self.add_text("Feature", Font::Bold, FONT_SIZE, column1_x, y_start, None);
        self.add_text("Data Type", Font::Bold, FONT_SIZE, column2_x, y_start, None);
        self.add_text("Category", Font::Bold, FONT_SIZE, column3_x, y_start, None);

        self.add_line(
            column1_x,
            y_start - line_height / 2,
            900_000,
            y_start - line_height / 2,
            1_000,
        );
        let ghost headed = self@;

        let mut y_position: i64 = y_start - 2 * line_height;
        let mut row_count: usize = 0;

        while row_count < column_types.len()
            invariant
                self.wf(),
                self@.pages.len() >= old(self)@.pages.len(),
                self@.geometry == headed.geometry,
                self@.sections == old(self)@.section_recorded("Data Types Overview"@),
                self@.fonts == headed.fonts,
                row_count <= column_types.len(),
                -300_000_000_000 <= y_position <= 900_000,
                self@.data_type_rows(column_types@, row_count as int, y_position as int)
                    == headed.data_type_rows(column_types@, 0, 850_000 - 2 * line_height),
            decreases column_types.len() - row_count,
        {
            let column: &ColumnType = &column_types[row_count];
            let ghost row_start = self@;
            let ghost row_y = y_position;
            y_position = match self.make_room(y_position, 3 * line_height) {
                Ok(y) => y,
                Err(error) => {
                    return Err(error);
                },
            };

            if row_count % 2 == 0 {
                self.add_rectangle(
                    column1_x,
                    y_position + line_height,
                    900_000,
                    y_position - line_height,
                    Color::new(240, 240, 240, 255),
                );
            }

            self.add_text(
                column.name.as_str(),
                Font::Regular,
                FONT_SIZE,
                column1_x + 10_000,
                y_position,
                None,
            );
            self.add_text(
                column.type_text.as_str(),
                Font::Regular,
                FONT_SIZE,
                column2_x,
                y_position,
                None,
            );

            let description = get_data_type_category(&column.data_type);
            let wrapped_description = self.wrap_text(
                description.as_str(),
                column3_x,
                900_000,
                Font::Regular,
                FONT_SIZE,
            );
            let ghost lines = texts(wrapped_description@);
            let ghost placed = self@;
            proof {
                lemma_category_short(column.data_type);
                lemma_wrap_count(category_name(column.data_type), row_start.category_measure());
                assert(
                    lines == wrapped(category_name(column.data_type), row_start.category_measure())
                );
                assert(lines.len() == wrapped_description@.len());
            }

            let mut i: usize = 0;
            while i < wrapped_description.len()
                invariant
                    self.wf(),
                    self@.pages.len() >= old(self)@.pages.len(),
                    self@.geometry == headed.geometry,
                    self@.sections == old(self)@.section_recorded("Data Types Overview"@),
                self@.sections == old(self)@.section_recorded("Data Types Overview"@),
                    self@.fonts == headed.fonts,
                    i <= wrapped_description.len(),
                    self@.stacked_lines(lines, i as int, y_position as int, line_height as int)
                        == placed.stacked_lines(lines, 0, y_position as int, line_height as int),
                decreases wrapped_description.len() - i,
            {
                assert(i * line_height <= 17 * 12_000_010_000) by (nonlinear_arith)
                    requires
                        0 <= i <= 17,
                        0 <= line_height <= 12_000_010_000,
                ;
                assert(wrapped_description@[i as int]@ == lines[i as int]);
                self.add_text(
                    wrapped_description[i].as_str(),
                    Font::Regular,
                    FONT_SIZE,
                    column3_x,
                    y_position - (i as i64) * line_height,
                    None,
                );
                i += 1;
            }

            assert((wrapped_description.len() + 1) * line_height <= 18 * 12_000_010_000 && (
            wrapped_description.len() + 1) * line_height >= 0) by (nonlinear_arith)
                requires
                    0 <= wrapped_description.len() <= 17,
                    0 <= line_height <= 12_000_010_000,
            ;
            y_position -= (wrapped_description.len() as i64 + 1) * line_height;
            proof {
                assert(row_start.data_type_row(
                    column_types@[row_count as int],
                    row_count % 2 == 0,
                    row_y as int,
                ) == Some((self@, y_position as int)));
            }
            row_count += 1;
        }

        Ok(())
    }
}

} // verus!
