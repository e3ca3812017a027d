//! The pages of the descriptive analysis: the shape of the dataset and, for each numeric
//! feature, its statistics in two columns.

use crate::LeadsError;
use crate::data::base::same_text;
use crate::data::descriptive::{
    entry_in_row, pairs, statistic_offsets, tables, DescriptiveAnalysis, DescriptiveError,
};
use crate::ordered_map::entries;
use crate::report::fonts::Font;
use crate::report::layout::{overflows, Layout};
use crate::report::numerals::{decimal, decimal_text};
use crate::report::pdf::{PageManager, PdfError};
use crate::report::units::{
    fraction_of, FEATURE_HEADER_FONT_SIZE, FONT_SIZE, LINE_HEIGHT_PADDING, TOP_MARGIN,
};
use vstd::prelude::*;
use vstd::string::*;

verus! {

/// The text that gives the shape of a dataset.
pub open spec fn shape_text(n_rows: u64, n_cols: u64) -> Seq<char> {
    decimal_text(n_rows as nat) + " rows, "@ + decimal_text(n_cols as nat) + " columns"@
}

impl Layout {
    /// The layout after the `counter`-th statistic of a feature is written at height `y`:
    /// its name, with a colon, and its value, in the left column if `counter` is even and
    /// in the right one if it is odd; with it, the height for the next statistic. The
    /// height moves down a line once the right column is filled; a new page is started
    /// then if less than two lines are left above the bottom margin.
    pub open spec fn statistic(self, name: Seq<char>, value: Seq<char>, counter: int, y: int)
        -> Option<(Layout, int)> {
        let height = self.row_height(FONT_SIZE, LINE_HEIGHT_PADDING as int);
        let x = if counter % 2 == 0 {
            150_000int
        } else {
            550_000int
        };
        let written = self.black_text(name + seq![':'], Font::Bold, FONT_SIZE, x, y).black_text(
            value,
            Font::Regular,
            FONT_SIZE,
            x + 200_000,
            y,
        );
        let below = if counter % 2 == 1 {
            y - height
        } else {
            y
        };
        if counter % 2 == 1 && overflows(below - height, height) {
            match written.new_page() {
                None => None,
                Some(fresh) => Some((fresh, TOP_MARGIN as int)),
            }
        } else {
            Some((written, below))
        }
    }

    /// The layout after the entries of a feature from the `from`-th on are written, of
    /// which `counter` statistics have been written before; with it, the height reached and
    /// the number of statistics written. The entry `column_name` is no statistic.
    pub open spec fn statistics(
        self,
        stats: Seq<(Seq<char>, Seq<char>)>,
        from: int,
        counter: int,
        y: int,
    ) -> Option<(Layout, int, int)>
        decreases stats.len() - from,
    {
        if from < 0 || from >= stats.len() {
            Some((self, y, counter))
        } else if stats[from].0 == "column_name"@ {
            self.statistics(stats, from + 1, counter, y)
        } else {
            match self.statistic(stats[from].0, stats[from].1, counter, y) {
                None => None,
                Some((layout, next_y)) => layout.statistics(stats, from + 1, counter + 1, next_y),
            }
        }
    }

    /// The height of the sub-header of a feature.
    pub open spec fn feature_header_height(self) -> int {
        fraction_of(FEATURE_HEADER_FONT_SIZE as int, self.geometry.height as int)
    }

    /// The layout after the sub-header of a feature is written at height `y`, once room
    /// has been made for it and seven lines: the name of the feature and a rule below it;
    /// with it, the height for the first statistic.
    pub open spec fn feature_header(self, name: Seq<char>, y: int) -> Option<(Layout, int)> {
        let height = self.row_height(FONT_SIZE, LINE_HEIGHT_PADDING as int);
        let header = self.feature_header_height();
        match self.room_for(y, header + 7 * height) {
            None => None,
            Some((layout, at)) => Some(
                (
                    layout.black_text(
                        name,
                        Font::Bold,
                        FEATURE_HEADER_FONT_SIZE,
                        100_000,
                        at,
                    ).line(
                        100_000,
                        at - header + LINE_HEIGHT_PADDING,
                        900_000,
                        at - header + LINE_HEIGHT_PADDING,
                        500,
                    ),
                    at - header - height,
                ),
            ),
        }
    }

    /// The layout after the block of a feature is written at height `y`: its sub-header
    /// with the name of the feature, which is the value of its first entry, and its
    /// statistics; with it, the height for the next block, a line and a half below the
    /// last statistic.
    pub open spec fn feature_block(self, stats: Seq<(Seq<char>, Seq<char>)>, y: int) -> Option<
        (Layout, int),
    > {
        let height = self.row_height(FONT_SIZE, LINE_HEIGHT_PADDING as int);
        match self.feature_header(stats[0].1, y) {
            None => None,
            Some((ruled, first)) => match ruled.statistics(stats, 0, 0, first) {
                None => None,
                Some((done, reached, counter)) => {
                    let below = if counter % 2 == 1 {
                        reached - height
                    } else {
                        reached
                    };
                    Some((done, below - height * 3 / 2))
                },
            },
        }
    }

    /// The layout after the blocks of the features from the `from`-th on are written.
    pub open spec fn feature_blocks(
        self,
        values: Seq<Seq<(Seq<char>, Seq<char>)>>,
        from: int,
        y: int,
    ) -> Option<(Layout, int)>
        decreases values.len() - from,
    {
        if from < 0 || from >= values.len() {
            Some((self, y))
        } else {
            match self.feature_block(values[from], y) {
                None => None,
                Some((layout, next_y)) => layout.feature_blocks(values, from + 1, next_y),
            }
        }
    }

    /// The layout with the header of the section of the descriptive analysis added, and
    /// below it the shape of the dataset.
    pub open spec fn descriptive_header(self, n_rows: u64, n_cols: u64) -> Option<Layout> {
        match self.begin_section("Descriptive Analysis"@) {
            None => None,
            Some(begun) => Some(
                begun.black_text("Shape:"@, Font::Bold, FONT_SIZE, 100_000, 860_000).black_text(
                    shape_text(n_rows, n_cols),
                    Font::Regular,
                    FONT_SIZE,
                    100_000 + begun.width_of("Shape:"@, Font::Bold, FONT_SIZE) + 5_000,
                    860_000,
                ),
            ),
        }
    }

    /// The layout with the section of the descriptive analysis added: its header, the
    /// shape of the dataset, and a block for each feature. Nothing where the document
    /// cannot hold the pages.
    pub open spec fn descriptive_page(
        self,
        n_rows: u64,
        n_cols: u64,
        values: Seq<Seq<(Seq<char>, Seq<char>)>>,
    ) -> Option<Layout> {
        match self.descriptive_header(n_rows, n_cols) {
            None => None,
            Some(headed) => match headed.feature_blocks(
                values,
                0,
                860_000 - 2 * headed.row_height(FONT_SIZE, LINE_HEIGHT_PADDING as int),
            ) {
                None => None,
                Some((done, y)) => Some(done),
            },
        }
    }
}

impl PageManager {
    /// Writes the block of one feature at height `y_fraction`: its name, a rule, and its
    /// statistics in two columns. Returns the height for the next block.
    #[verifier::loop_isolation(false)]
    pub fn add_feature_block(&mut self, feature_stats: &Vec<(String, String)>, y_fraction: i64)
        -> (next: Result<i64, PdfError>)
        requires
            old(self).wf(),
            old(self)@.pages.len() >= 1,
            feature_stats@.len() > 0,
            -100_000_000_000 <= y_fraction <= 900_000,
        ensures
            final(self).wf(),
            final(self)@.pages.len() >= old(self)@.pages.len(),
            final(self)@.sections == old(self)@.sections,
            match next {
                Ok(y) => old(self)@.feature_block(pairs(feature_stats@), y_fraction as int)
                    == Some((final(self)@, y as int)) && -100_000_000_000 <= y <= 900_000,
                Err(error) => error == PdfError::PageLimit && old(self)@.feature_block(
                    pairs(feature_stats@),
                    y_fraction as int,
                ) is None,
            },
    {
        let ghost stats = pairs(feature_stats@);
        let line_height_fraction: i64 = self.document.geometry.height_fraction(FONT_SIZE)
            + LINE_HEIGHT_PADDING;
        let feature_line_height_fraction: i64 = self.document.geometry.height_fraction(
            FEATURE_HEADER_FONT_SIZE,
        );
        let mut y_fraction: i64 = match self.make_room(
            y_fraction,
            feature_line_height_fraction + 7 * line_height_fraction,
        ) {
            Ok(y) => y,
            Err(error) => {
                return Err(error);
            },
        };

        // Add feature sub-header.
        let feature_name: &String = &feature_stats[0].1;
        assert(feature_name@ == stats[0].1);
        self.add_text(
            feature_name.as_str(),
            Font::Bold,
            FEATURE_HEADER_FONT_SIZE,
            100_000,
            y_fraction,
            None,
        );
        y_fraction -= feature_line_height_fraction;

        self.add_line(
            100_000,
            y_fraction + LINE_HEIGHT_PADDING,
            900_000,
            y_fraction + LINE_HEIGHT_PADDING,
            500,
        );
        y_fraction -= line_height_fraction;

        // Format metrics in two columns.
        let left_column: i64 = 150_000;
        let right_column: i64 = 550_000;
        let mut counter: usize = 0;
        let ghost ruled = self@;
        let ghost first_y = y_fraction;

        let mut next: usize = 0;
        while next < feature_stats.len()
            invariant
                self.wf(),
                self@.pages.len() >= old(self)@.pages.len(),
                self@.geometry == ruled.geometry,
                self@.sections == old(self)@.sections,
                next <= feature_stats.len(),
                counter <= next,
                -29_000_000_000 <= y_fraction <= 900_000,
                self@.statistics(stats, next as int, counter as int, y_fraction as int)
                    == ruled.statistics(stats, 0, 0, first_y as int),
            decreases feature_stats.len() - next,
        {
            let stat_name: &String = &feature_stats[next].0;
            let stat_value: &String = &feature_stats[next].1;
            assert(stat_name@ == stats[next as int].0 && stat_value@ == stats[next as int].1);
            if same_text(stat_name.as_str(), "column_name") {
                next += 1;
                continue;
            }
            let ghost before = self@;
            let ghost y_before = y_fraction;

            let x_position: i64 = if counter % 2 == 0 {
                left_column
            } else {
                right_column
            };

            let mut label = stat_name.clone();
            label.append(":");
            proof {
                reveal_strlit(":");
                assert(label@ =~= stat_name@ + seq![':']);
            }
            self.add_text(label.as_str(), Font::Bold, FONT_SIZE, x_position, y_fraction, None);

            let value_x: i64 = x_position + 200_000;
            self.add_text(stat_value.as_str(), Font::Regular, FONT_SIZE, value_x, y_fraction, None);

            if counter % 2 == 1 {
                y_fraction -= line_height_fraction;
            }
            counter += 1;

            if counter % 2 == 0 && self.need_new_page(
                y_fraction - line_height_fraction,
                line_height_fraction,
            ) {
                match self.new_page() {
                    Ok(()) => {},
                    Err(error) => {
                        proof {
                            assert(before.statistic(
                                stats[next as int].0,
                                stats[next as int].1,
                                counter - 1,
                                y_before as int,
                            ) is None);
                        }
                        return Err(error);
                    },
                }
                y_fraction = TOP_MARGIN;
            }
            proof {
                assert(before.statistic(
                    stats[next as int].0,
                    stats[next as int].1,
                    counter - 1,
                    y_before as int,
                ) == Some((self@, y_fraction as int)));
            }
            next += 1;
        }

        if counter % 2 == 1 {
            y_fraction -= line_height_fraction;
        }

        y_fraction -= line_height_fraction * 3 / 2;

        Ok(y_fraction)
    }

    /// Creates the report pages with the results of the basic descriptive analysis.
    ///
    /// Fails with `Report` where the document cannot hold the pages, and with
    /// `DescriptiveAnalysis` where the statistics of a feature are not all in the table. The
    /// section is then recorded if its first page could be started, and no other record is
    /// changed.
    #[verifier::loop_isolation(false)]
    pub fn create_descriptive_analysis_page(&mut self, descriptive_analysis: &DescriptiveAnalysis)
        -> (done: Result<(), LeadsError>)
        requires
            old(self).wf(),
            old(self)@.pages.len() >= 1,
            descriptive_analysis.wf(),
        ensures
            final(self).wf(),
            final(self)@.pages.len() >= old(self)@.pages.len(),
            final(self)@.sections == old(self)@.sections || final(self)@.sections
                == old(self)@.section_recorded("Descriptive Analysis"@),
            done is Ok ==> final(self)@.sections == old(self)@.section_recorded(
                "Descriptive Analysis"@,
            ),
            ({
                let header = old(self)@.descriptive_header(
                    descriptive_analysis.n_rows,
                    descriptive_analysis.n_cols,
                );
                let page = old(self)@.descriptive_page(
                    descriptive_analysis.n_rows,
                    descriptive_analysis.n_cols,
                    descriptive_analysis.values(),
                );
                match done {
                    Ok(()) => descriptive_analysis.available() && page == Some(final(self)@),
                    Err(LeadsError::Report(error)) => error == PdfError::PageLimit && (header
                        is None || (descriptive_analysis.available() && page is None)),
                    Err(LeadsError::DescriptiveAnalysis(error)) => header is Some
                        && !descriptive_analysis.available()
                        && descriptive_analysis.unavailable_for(error),
                    Err(_) => false,
                }
            }),
    {
        match self.start_section("Descriptive Analysis") {
            Ok(()) => {},
            Err(error) => {
                return Err(LeadsError::Report(error));
            },
        }

        let mut y_fraction: i64 = 860_000;
        let line_height_fraction: i64 = self.document.geometry.height_fraction(FONT_SIZE)
            + LINE_HEIGHT_PADDING;

        self.add_text("Shape:", Font::Bold, FONT_SIZE, 100_000, y_fraction, None);
        let shape_txt_width = self.get_text_width("Shape:", Font::Bold, FONT_SIZE);
        let mut shape = decimal(descriptive_analysis.n_rows as u128);
        shape.append(" rows, ");
        shape.append(decimal(descriptive_analysis.n_cols as u128).as_str());
        shape.append(" columns");
        proof {
            assert(shape@ =~= shape_text(descriptive_analysis.n_rows, descriptive_analysis.n_cols));
        }
        self.add_text(
            shape.as_str(),
            Font::Regular,
            FONT_SIZE,
            100_000 + shape_txt_width + 5_000,
            y_fraction,
            None,
        );
        y_fraction -= 2 * line_height_fraction;
        let ghost headed = self@;

        let analysis_values = match descriptive_analysis.column_stats.get_analysis_values(
            &descriptive_analysis.feature_indices,
            &descriptive_analysis.column_map,
        ) {
            Ok(values) => values,
            Err(error) => {
                proof {
                    lemma_unavailable(*descriptive_analysis, error);
                }
                return Err(LeadsError::DescriptiveAnalysis(error));
            },
        };
        let ghost values = descriptive_analysis.values();
        assert(tables(analysis_values@) == values);

        let mut next: usize = 0;
        while next < analysis_values.len()
            invariant
                self.wf(),
                self@.pages.len() >= old(self)@.pages.len(),
                self@.sections == old(self)@.section_recorded("Descriptive Analysis"@),
                next <= analysis_values.len(),
                -100_000_000_000 <= y_fraction <= 900_000,
                self@.feature_blocks(values, next as int, y_fraction as int)
                    == headed.feature_blocks(values, 0, 860_000 - 2 * line_height_fraction),
            decreases analysis_values.len() - next,
        {
            let feature_stats: &Vec<(String, String)> = &analysis_values[next];
            proof {
                assert(pairs(feature_stats@) == values[next as int]) by {
                    assert(tables(analysis_values@)[next as int] == pairs(
                        analysis_values@[next as int]@,
                    ));
                }
                assert(values[next as int].len() == statistic_offsets().len());
            }
            y_fraction = match self.add_feature_block(feature_stats, y_fraction) {
                Ok(y) => y,
                Err(error) => {
                    return Err(LeadsError::Report(error));
                },
            };
            next += 1;
        }

        Ok(())
    }
}

/// Where the entries of the features cannot be listed, not every entry is in the table.
pub proof fn lemma_unavailable(analysis: DescriptiveAnalysis, error: DescriptiveError)
    requires
        analysis.unavailable_for(error),
    ensures
        !analysis.available(),
{
    match error {
        DescriptiveError::InvalidIndex(text) => {
            let length = analysis.column_stats.rows@[0]@.len() as int;
            let features = entries(analysis.feature_indices);
            let columns = entries(analysis.column_map);
            let (f, s) = choose|f: int, s: int|
                {
                    &&& 0 <= f < features.len()
                    &&& 0 <= s < columns.len()
                    &&& !entry_in_row(length, features, columns, f, s)
                };
            if analysis.available() {
                assert(entry_in_row(length, features, columns, f, s));
            }
        },
        _ => {},
    }
}

} // verus!
