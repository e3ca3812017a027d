//! The assembly of the report: its sections in their fixed order, the table of contents
//! last.

use crate::data::base::DataInfo;
use crate::ordered_map::{has_name, index_of_name, recorded, shifted, Records};
use crate::report::layout::Layout;
use crate::report::pdf::{PageManager, PdfError};
use crate::report::title_page::today;
use crate::LeadsError;
use vstd::prelude::*;

verus! {

/// The records once the first `count` sections of the body are recorded behind those of
/// `before`, each with its page: the data types overview, the descriptive analysis, the
/// missing values analysis and the glossary, in this order.
pub open spec fn records_after(before: Records, pages: Seq<u32>, count: int) -> Records {
    let one = recorded(before, "Data Types Overview"@, pages[0]);
    let two = recorded(one, "Descriptive Analysis"@, pages[1]);
    let three = recorded(two, "Missing Values Analysis"@, pages[2]);
    let four = recorded(three, "Glossary"@, pages[3]);
    if count <= 0 {
        before
    } else if count == 1 {
        one
    } else if count == 2 {
        two
    } else if count == 3 {
        three
    } else {
        four
    }
}

/// Whether `after` holds the records of a report that was given up: those of `before` and
/// those of the sections of the body that were started, and none of a table of contents
/// but what `before` holds.
#[verifier::opaque]
pub open spec fn written_in_part(before: Records, after: Records) -> bool {
    &&& exists|pages: Seq<u32>, count: int|
        0 <= count <= 4 && after == #[trigger] records_after(before, pages, count)
    &&& has_name(after, "Table of Contents"@) ==> has_name(before, "Table of Contents"@)
}

/// Whether `after` holds the records of a finished report: those of `before` and those of
/// the four sections of the body, each moved by the pages of the table of contents, and
/// that of the table itself, which is the number of its pages.
#[verifier::opaque]
pub open spec fn written_in_full(before: Records, after: Records) -> bool {
    exists|pages: Seq<u32>, added: u32|
        added >= 1 && after == recorded(
            #[trigger] shifted(records_after(before, pages, 4), added as int),
            "Table of Contents"@,
            added,
        )
}

/// Recording a name adds no other name.
pub proof fn lemma_recorded_names(records: Records, name: Seq<char>, number: u32, other: Seq<char>)
    requires
        other != name,
        has_name(recorded(records, name, number), other),
    ensures
        has_name(records, other),
{
    let after = recorded(records, name, number);
    let at = index_of_name(after, other);
    if has_name(records, name) {
        assert(after[at].0 == records[at].0);
    } else {
        assert(at < records.len());
        assert(after[at] == records[at]);
    }
}

/// The records of a finished report are written in full.
pub proof fn lemma_written_in_full(before: Records, after: Records, pages: Seq<u32>, added: u32)
    requires
        added >= 1,
        after == recorded(
            shifted(records_after(before, pages, 4), added as int),
            "Table of Contents"@,
            added,
        ),
    ensures
        written_in_full(before, after),
{
    reveal(written_in_full);
    assert(after == recorded(
        #[trigger] shifted(records_after(before, pages, 4), added as int),
        "Table of Contents"@,
        added,
    ));
}

/// The sections of the body record no table of contents.
pub proof fn lemma_written_in_part(before: Records, pages: Seq<u32>, count: int)
    requires
        0 <= count <= 4,
    ensures
        written_in_part(before, records_after(before, pages, count)),
{
    reveal(written_in_part);
    reveal_strlit("Data Types Overview");
    reveal_strlit("Descriptive Analysis");
    reveal_strlit("Missing Values Analysis");
    reveal_strlit("Glossary");
    reveal_strlit("Table of Contents");
    let table = "Table of Contents"@;
    let one = recorded(before, "Data Types Overview"@, pages[0]);
    let two = recorded(one, "Descriptive Analysis"@, pages[1]);
    let three = recorded(two, "Missing Values Analysis"@, pages[2]);
    let four = recorded(three, "Glossary"@, pages[3]);
    assert(table.len() == 17);
    if count >= 4 && has_name(four, table) {
        lemma_recorded_names(three, "Glossary"@, pages[3], table);
    }
    if count >= 3 && has_name(three, table) {
        lemma_recorded_names(two, "Missing Values Analysis"@, pages[2], table);
    }
    if count >= 2 && has_name(two, table) {
        lemma_recorded_names(one, "Descriptive Analysis"@, pages[1], table);
    }
    if count >= 1 && has_name(one, table) {
        lemma_recorded_names(before, "Data Types Overview"@, pages[0], table);
    }
}

impl Layout {
    /// The layout with the report written up to the header of the descriptive analysis:
    /// the title page, the data types overview, and that header with the shape of the
    /// dataset. Nothing where the document cannot hold the pages.
    pub open spec fn report_head(self, info: DataInfo, date: Seq<char>) -> Option<Layout> {
        match self.title_page(info.data_title@, date) {
            None => None,
            Some(titled) => match titled.data_types_page(info.column_types@) {
                None => None,
                Some(typed) => typed.descriptive_header(
                    info.descriptive_analysis.n_rows,
                    info.descriptive_analysis.n_cols,
                ),
            },
        }
    }

    /// The layout with the whole report written: the title page, the data types overview,
    /// the descriptive analysis, the missing values analysis, the glossary, and the table
    /// of contents, which is inserted behind the title page once the rest is written.
    /// Nothing where the document cannot hold the pages.
    pub open spec fn report(self, info: DataInfo, date: Seq<char>) -> Option<Layout> {
        match self.title_page(info.data_title@, date) {
            None => None,
            Some(titled) => match titled.data_types_page(info.column_types@) {
                None => None,
                Some(typed) => match typed.descriptive_page(
                    info.descriptive_analysis.n_rows,
                    info.descriptive_analysis.n_cols,
                    info.descriptive_analysis.values(),
                ) {
                    None => None,
                    Some(described) => match described.missing_values_page(
                        info.missing_value_analysis.column_missing_values@,
                    ) {
                        None => None,
                        Some(counted) => match counted.glossary_page() {
                            None => None,
                            Some(explained) => match explained.table_of_contents() {
                                None => None,
                                Some((done, pages)) => Some(done),
                            },
                        },
                    },
                },
            },
        }
    }
}

impl PageManager {
    /// Generates the final report, with the given date on its title page.
    ///
    /// Fails with `Report` where the document cannot hold the pages, and with
    /// `DescriptiveAnalysis` where the statistics of a feature are not all in the table. The
    /// report is then given up: the sections started so far are recorded, and no table of
    /// contents is.
    #[verifier::rlimit(60)]
    pub fn generate_dated_report(&mut self, data_info: &DataInfo, date: &str) -> (done: Result<
        (),
        LeadsError,
    >)
        requires
            old(self).wf(),
            data_info.descriptive_analysis.wf(),
        ensures
            final(self).wf(),
            final(self)@.pages.len() >= old(self)@.pages.len(),
            ({
                let head = old(self)@.report_head(*data_info, date@);
                let report = old(self)@.report(*data_info, date@);
                let available = data_info.descriptive_analysis.available();
                match done {
                    Ok(()) => available && report == Some(final(self)@),
                    Err(LeadsError::Report(error)) => error == PdfError::PageLimit && (head
                        is None || (available && report is None)),
                    Err(LeadsError::DescriptiveAnalysis(error)) => head is Some && !available
                        && data_info.descriptive_analysis.unavailable_for(error),
                    Err(_) => false,
                }
            }),
            done is Ok ==> written_in_full(old(self)@.sections, final(self)@.sections),
            done is Err ==> written_in_part(old(self)@.sections, final(self)@.sections),
    {
        let ghost before = self@.sections;
        match self.create_dated_title_page(data_info.data_title.as_str(), date) {
            Ok(()) => {},
            Err(error) => {
                proof {
                    lemma_written_in_part(before, Seq::new(4, |i: int| 0u32), 0);
                }
                return Err(error);
            },
        }
        let ghost first = self@.pages.len() as u32;
        match self.create_data_types_page(&data_info.column_types) {
            Ok(()) => {},
            Err(error) => {
                proof {
                    let pages = seq![first, 0u32, 0u32, 0u32];
                    lemma_written_in_part(before, pages, 0);
                    lemma_written_in_part(before, pages, 1);
                }
                return Err(LeadsError::Report(error));
            },
        }
        let ghost second = self@.pages.len() as u32;
        match self.create_descriptive_analysis_page(&data_info.descriptive_analysis) {
            Ok(()) => {},
            Err(error) => {
                proof {
                    let pages = seq![first, second, 0u32, 0u32];
                    lemma_written_in_part(before, pages, 1);
                    lemma_written_in_part(before, pages, 2);
                }
                return Err(error);
            },
        }
        let ghost third = self@.pages.len() as u32;
        match self.create_missing_values_page(&data_info.missing_value_analysis) {
            Ok(()) => {},
            Err(error) => {
                proof {
                    let pages = seq![first, second, third, 0u32];
                    lemma_written_in_part(before, pages, 2);
                    lemma_written_in_part(before, pages, 3);
                }
                return Err(LeadsError::Report(error));
            },
        }
        let ghost fourth = self@.pages.len() as u32;
        let ghost pages = seq![first, second, third, fourth];
        match self.create_glossary_page() {
            Ok(()) => {},
            Err(error) => {
                proof {
                    lemma_written_in_part(before, pages, 3);
                    lemma_written_in_part(before, pages, 4);
                }
                return Err(LeadsError::Report(error));
            },
        }
        assert(self@.sections == records_after(before, pages, 4));
        match self.create_table_of_contents() {
            Ok(added) => {
                proof {
                    lemma_written_in_full(before, self@.sections, pages, added);
                }
            },
            Err(error) => {
                proof {
                    lemma_written_in_part(before, pages, 4);
                }
                return Err(LeadsError::Report(error));
            },
        }
        Ok(())
    }

    /// Generates the final report, with the date of today on its title page.
    ///
    /// Fails with `Report` where the document cannot hold the pages, and with
    /// `DescriptiveAnalysis` where the statistics of a feature are not all in the table. The
    /// report is then given up: the sections started so far are recorded, and no table of
    /// contents is.
    pub fn generate_report(&mut self, data_info: &DataInfo) -> (done: Result<(), LeadsError>)
        requires
            old(self).wf(),
            data_info.descriptive_analysis.wf(),
        ensures
            final(self).wf(),
            final(self)@.pages.len() >= old(self)@.pages.len(),
            exists|date: Seq<char>|
                {
                    let head = #[trigger] old(self)@.report_head(*data_info, date);
                    let report = old(self)@.report(*data_info, date);
                    let available = data_info.descriptive_analysis.available();
                    match done {
                        Ok(()) => available && report == Some(final(self)@),
                        Err(LeadsError::Report(error)) => error == PdfError::PageLimit && (head
                            is None || (available && report is None)),
                        Err(LeadsError::DescriptiveAnalysis(error)) => head is Some && !available
                            && data_info.descriptive_analysis.unavailable_for(error),
                        Err(_) => false,
                    }
                },
            done is Ok ==> written_in_full(old(self)@.sections, final(self)@.sections),
            done is Err ==> written_in_part(old(self)@.sections, final(self)@.sections),
    {
        let date = today();
        self.generate_dated_report(data_info, date.as_str())
    }
}

} // verus!
