//! The table of contents and the folios: the second pass over a finished body, which
//! inserts the front matter and numbers every page.

use crate::ordered_map::{find, number_of, recorded, set_number_at, shifted, Records};
use crate::report::document::{Color, PageObject, PlacedObject};
use crate::report::fonts::{exact_width, Font, MAX_WIDTH};
use crate::report::layout::{dots, overflows, Layout};
use crate::report::numerals::{decimal, decimal_text, roman_text, to_roman_numeral};
use crate::report::pdf::{PageManager, PdfError};
use crate::report::toc_laws::{body_moved, lemma_row_keeps_body};
use crate::report::units::{
    fraction_of, placeable, FONT_SIZE, LINE_HEIGHT_PADDING, SECTION_HEADER_FONT_SIZE, TOP_MARGIN,
};
use vstd::prelude::*;
use vstd::string::*;

verus! {

impl Layout {
    /// The height of a normal line of text, as a fraction of the page height.
    pub open spec fn line_height(self) -> int {
        fraction_of(FONT_SIZE as int, self.geometry.height as int) + LINE_HEIGHT_PADDING
    }

    /// The folio `text` as it is placed in the lower right corner of a page.
    pub open spec fn folio(self, text: Seq<char>, size: u32) -> PlacedObject {
        self.text_object(text, Font::Regular, size, 950_000, 50_000, Color::black())
    }

    /// The layout after one row of the table of contents is written at height `y` for a
    /// section recorded at `page`, `added` pages having been inserted so far; with it, the
    /// height for the next row and the pages inserted by then. Where the row would cross
    /// the bottom margin, another page is inserted behind those inserted so far and the row
    /// is written at its top. The number shown is the recorded page plus the pages inserted
    /// by the time the row is written.
    pub open spec fn toc_row(self, name: Seq<char>, page: u32, y: int, added: int) -> Option<
        (Layout, int, int),
    > {
        let breaks = overflows(y, self.line_height());
        let started = if breaks {
            self.page_at(1 + added)
        } else {
            Some(self)
        };
        match started {
            None => None,
            Some(layout) => {
                let at = if breaks {
                    TOP_MARGIN as int
                } else {
                    y
                };
                let count = if breaks {
                    added + 1
                } else {
                    added
                };
                let number = decimal_text((page + count) as nat);
                let start_x = 100_000 + layout.width_of(name, Font::Regular, FONT_SIZE) + 10_000;
                let end_x = 900_000 - layout.width_of(number, Font::Regular, FONT_SIZE) - 10_000;
                Some(
                    (
                        layout.black_text(name, Font::Regular, FONT_SIZE, 100_000, at).black_text(
                            number,
                            Font::Regular,
                            FONT_SIZE,
                            900_000,
                            at,
                        ).dotted_line(start_x, end_x, at),
                        at - self.line_height(),
                        count,
                    ),
                )
            },
        }
    }

    /// The layout after the rows for the records from the `from`-th on are written.
    pub open spec fn toc_rows(self, rows: Records, from: int, y: int, added: int) -> Option<
        (Layout, int, int),
    >
        decreases rows.len() - from,
    {
        if from < 0 || from >= rows.len() {
            Some((self, y, added))
        } else {
            match self.toc_row(rows[from].0, rows[from].1, y, added) {
                None => None,
                Some((layout, next_y, count)) => layout.toc_rows(rows, from + 1, next_y, count),
            }
        }
    }

    /// The layout with roman folios on the inserted pages from the `from`-th on: the first
    /// inserted page is page 1 of the document and carries the folio I.
    pub open spec fn roman_folios(self, added: int, from: int) -> Layout
        decreases added - from,
    {
        if from < 0 || from >= added {
            self
        } else {
            self.placed_on(
                1 + from,
                self.folio(roman_text((from + 1) as nat), 10_000),
            ).roman_folios(
                added,
                from + 1,
            )
        }
    }

    /// The layout with arabic folios on the pages from `page` on, which count up from
    /// `number`.
    pub open spec fn arabic_folios(self, page: int, number: int) -> Layout
        decreases self.pages.len() - page,
    {
        if page < 0 || page >= self.pages.len() {
            self
        } else {
            self.placed_on(page, self.folio(decimal_text(number as nat), 12_000)).arabic_folios(
                page + 1,
                number + 1,
            )
        }
    }

    /// The layout with the page numbers added: the pages behind the table of contents count
    /// from 1.
    pub open spec fn page_numbers(self) -> Layout {
        let first = match number_of(self.sections, "Table of Contents"@) {
            Some(pages) => pages + 1,
            None => 1,
        };
        self.arabic_folios(first, 1)
    }

    /// The layout with the table of contents inserted behind the title page: a row for each
    /// record, roman folios on the inserted pages, every record moved by the number of
    /// pages inserted, a record for the table itself, and arabic folios on the pages behind
    /// it. With it, the number of pages inserted.
    pub open spec fn table_of_contents(self) -> Option<(Layout, int)> {
        match self.page_at(1) {
            None => None,
            Some(first) => {
                let titled = first.black_text(
                    "Table of Contents"@,
                    Font::Bold,
                    SECTION_HEADER_FONT_SIZE,
                    100_000,
                    900_000,
                );
                match titled.toc_rows(self.sections, 0, 850_000, 1) {
                    None => None,
                    Some((written, y, added)) => {
                        let numbered = written.roman_folios(added, 0);
                        let renumbered = Layout {
                            sections: recorded(
                                shifted(numbered.sections, added),
                                "Table of Contents"@,
                                added as u32,
                            ),
                            ..numbered
                        };
                        Some((renumbered.page_numbers(), added))
                    },
                }
            },
        }
    }
}

/// A row of full stops is as many times the width of one as it has full stops.
pub proof fn lemma_dots_units(layout: Layout, count: nat)
    ensures
        layout.fonts.regular.units(dots(count)) == count * layout.fonts.regular.glyph_width('.'),
    decreases count,
{
    let metrics = layout.fonts.regular;
    let advance = metrics.glyph_width('.');
    if count > 0 {
        lemma_dots_units(layout, (count - 1) as nat);
        assert(dots(count).len() == count);
        assert(dots(count).drop_last() =~= dots((count - 1) as nat));
        assert(dots(count).last() == '.');
        assert(metrics.units(dots(count)) == metrics.units(dots((count - 1) as nat)) + advance);
        assert(count * advance == (count - 1) * advance + advance) by (nonlinear_arith);
    } else {
        assert(dots(count).len() == 0);
        assert(count * advance == 0) by (nonlinear_arith)
            requires
                count == 0,
        ;
    }
}

/// Once a leader has as many full stops as the gap times the page width, it fills the gap.
pub proof fn lemma_leader_limit(layout: Layout, count: nat, gap: int)
    requires
        layout.geometry.wf(),
        layout.fonts.regular.glyph_width('.') >= 1,
        gap <= MAX_WIDTH,
        count >= gap * layout.geometry.width,
    ensures
        layout.leader_fills(count, gap),
{
    lemma_dots_units(layout, count);
    let advance = layout.fonts.regular.glyph_width('.');
    let units = layout.fonts.regular.units(dots(count));
    let page_width = layout.geometry.width;
    let exact = exact_width(units, FONT_SIZE, page_width);
    assert(exact >= 0 && exact >= gap) by (nonlinear_arith)
        requires
            exact == (units as int) * 12_000 * 1_000_000 / (1000 * (page_width as int)),
            units == count * advance,
            advance >= 1,
            page_width > 0,
            count >= gap * page_width,
    {
        if gap > 0 {
            assert(units >= gap * page_width);
            assert(units * 12_000 * 1_000_000 >= gap * (1000 * page_width));
        }
    }
}

impl PageManager {
    /// Adds the dotted lines for the table of contents rows: the shortest row of full stops
    /// that is as wide as the gap from `start_x` to `end_x`.
    #[verifier::loop_isolation(false)]
    pub fn add_dotted_line(&mut self, start_x: i64, end_x: i64, y: i64)
        requires
            old(self).wf(),
            old(self)@.pages.len() > 0,
            placeable(start_x as int),
            placeable(end_x as int),
            placeable(y as int),
            end_x - start_x <= MAX_WIDTH,
        ensures
            final(self).wf(),
            final(self)@.pages.len() >= old(self)@.pages.len(),
            final(self)@ == old(self)@.dotted_line(start_x as int, end_x as int, y as int),
    {
        let total_width: i64 = end_x - start_x;
        let mut dotted_line = String::new();
        let ghost layout = self@;
        let ghost mut count: nat = 0;
        if self.fonts.regular.glyph('.') != 0 {
            let mut current_width: i64 = self.get_text_width(
                dotted_line.as_str(),
                Font::Regular,
                FONT_SIZE,
            );
            proof {
                assert(dotted_line@ =~= dots(0));
            }
            while current_width < total_width
                invariant
                    self == old(self),
                    dotted_line@ == dots(count),
                    current_width == layout.width_of(dots(count), Font::Regular, FONT_SIZE),
                    layout.leader_from(count, total_width as int) == layout.leader_count(
                        total_width as int,
                    ),
                decreases total_width * layout.geometry.width - count,
            {
                proof {
                    if count >= total_width * layout.geometry.width {
                        lemma_leader_limit(layout, count, total_width as int);
                    }
                    reveal_strlit(".");
                    assert(dots(count) + "."@ =~= dots(count + 1));
                    count = count + 1;
                }
                dotted_line.append(".");
                current_width = self.get_text_width(dotted_line.as_str(), Font::Regular, FONT_SIZE);
            }
        } else {
            proof {
                assert(dotted_line@ =~= dots(0));
            }
        }
        self.add_text(dotted_line.as_str(), Font::Regular, FONT_SIZE, start_x, y, None);
    }

    /// Adds the page numbers in the bottom right corner for each page behind the table of
    /// contents.
    pub fn add_page_numbers(&mut self)
        requires
            old(self).wf(),
        ensures
            final(self).wf(),
            final(self)@.pages.len() >= old(self)@.pages.len(),
            final(self)@.sections == old(self)@.sections,
            final(self)@ == old(self)@.page_numbers(),
    {
        let total_pages: usize = self.document.page_count();
        let found = find(&self.section_page_map, "Table of Contents");
        let toc_pages: u32 = match found {
            Some(pages) => pages + 1,
            None => 1,
        };
        let mut current_page: u32 = 1;
        let mut page_index: usize = toc_pages as usize;
        while page_index < total_pages
            invariant
                self.wf(),
                self@.pages.len() == total_pages,
                self@.sections == old(self)@.sections,
                total_pages == old(self)@.pages.len(),
                current_page <= page_index,
                self@.arabic_folios(page_index as int, current_page as int) == old(
                    self,
                )@.page_numbers(),
            decreases total_pages - page_index,
        {
            let text = decimal(current_page as u128);
            let (x, y) = self.document.geometry.to_absolute(950_000, 50_000);
            let object = PageObject::Text {
                text,
                font: Font::Regular,
                size: 12_000,
                x,
                y,
                color: Color::new(0, 0, 0, 255),
            };
            self.document.place(page_index, object);
            current_page += 1;
            page_index += 1;
        }
    }

    /// Creates the table of contents page(s) behind the title page, once every section is
    /// written: a row for each recorded section, with its name, a dotted leader and its
    /// page number; roman folios on the pages of the table and arabic ones behind them.
    /// Every recorded page moves by the number of pages inserted, which is returned and
    /// recorded for the table itself.
    ///
    /// Fails where the document cannot hold the pages of the table. The records are then as
    /// they were, and the pages behind the title page lie in their old order behind the
    /// pages inserted so far.
    #[verifier::loop_isolation(false)]
    pub fn create_table_of_contents(&mut self) -> (inserted: Result<u32, PdfError>)
        requires
            old(self).wf(),
            old(self)@.pages.len() >= 1,
        ensures
            final(self).wf(),
            final(self)@.pages.len() >= old(self)@.pages.len(),
            match inserted {
                Ok(pages) => {
                    &&& old(self)@.table_of_contents() == Some((final(self)@, pages as int))
                    &&& pages >= 1
                    &&& final(self)@.sections == recorded(
                        shifted(old(self)@.sections, pages as int),
                        "Table of Contents"@,
                        pages,
                    )
                },
                Err(error) => {
                    &&& error == PdfError::PageLimit
                    &&& old(self)@.table_of_contents() is None
                    &&& final(self)@.sections == old(self)@.sections
                    &&& final(self)@ == old(self)@ || exists|added: int|
                        body_moved(old(self)@, final(self)@, added)
                },
            },
    {
        let start_page: u16 = 1;
        let ghost rows = self@.sections;
        let ghost body = self@.pages.len();
        match self.insert_page_at(start_page) {
            Ok(()) => {},
            Err(error) => {
                return Err(error);
            },
        }
        let mut pages_added: u16 = 1;

        self.add_text(
            "Table of Contents",
            Font::Bold,
            SECTION_HEADER_FONT_SIZE,
            100_000,
            900_000,
            None,
        );
        let ghost titled = self@;
        proof {
            assert forall|j: int| 1 <= j < old(self)@.pages.len() implies self@.pages[j + 1]
                == #[trigger] old(self)@.pages[j] by {}
            assert(body_moved(old(self)@, self@, 1));
        }

        let mut y_fraction: i64 = 850_000;
        let line_height_fraction: i64 = self.document.geometry.height_fraction(FONT_SIZE)
            + LINE_HEIGHT_PADDING;

        let sections: Vec<(String, u32)> = self.sections();

        let mut next: usize = 0;
        while next < sections.len()
            invariant
                self.wf(),
                self@.sections == rows,
                self@.pages.len() == body + pages_added,
                self@.geometry == titled.geometry,
                body_moved(old(self)@, self@, pages_added as int),
                next <= sections.len(),
                pages_added >= 1,
                -20_000_000_000 <= y_fraction <= 900_000,
                self@.toc_rows(rows, next as int, y_fraction as int, pages_added as int)
                    == titled.toc_rows(rows, 0, 850_000, 1),
            decreases sections.len() - next,
        {
            let ghost before = self@;
            let ghost y_before = y_fraction;
            let ghost added_before = pages_added;
            let section_name: &String = &sections[next].0;
            let page_number: u32 = sections[next].1;
            assert(section_name@ == rows[next as int].0 && page_number == rows[next as int].1);
            if self.need_new_page(y_fraction, line_height_fraction) {
                match self.insert_page_at(start_page + pages_added) {
                    Ok(()) => {},
                    Err(error) => {
                        proof {
                            assert(before.toc_row(
                                rows[next as int].0,
                                rows[next as int].1,
                                y_before as int,
                                added_before as int,
                            ) is None);
                            assert(before.toc_rows(
                                rows,
                                next as int,
                                y_before as int,
                                added_before as int,
                            ) is None);
                        }
                        return Err(error);
                    },
                }
                pages_added += 1;
                y_fraction = TOP_MARGIN;
            }
            self.add_text(
                section_name.as_str(),
                Font::Regular,
                FONT_SIZE,
                100_000,
                y_fraction,
                None,
            );

            let page_num_text = decimal((page_number + pages_added as u32) as u128);
            self.add_text(
                page_num_text.as_str(),
                Font::Regular,
                FONT_SIZE,
                900_000,
                y_fraction,
                None,
            );

            let section_width = self.get_text_width(
                section_name.as_str(),
                Font::Regular,
                FONT_SIZE,
            );
            let page_num_width = self.get_text_width(
                page_num_text.as_str(),
                Font::Regular,
                FONT_SIZE,
            );

            let start_x: i64 = 100_000 + section_width + 10_000;
            let end_x: i64 = 900_000 - page_num_width - 10_000;

            self.add_dotted_line(start_x, end_x, y_fraction);

            y_fraction -= line_height_fraction;
            proof {
                assert(before.toc_row(
                    rows[next as int].0,
                    rows[next as int].1,
                    y_before as int,
                    added_before as int,
                ) == Some((self@, y_fraction as int, pages_added as int)));
                lemma_row_keeps_body(
                    old(self)@,
                    before,
                    rows[next as int].0,
                    rows[next as int].1,
                    y_before as int,
                    added_before as int,
                );
            }
            next += 1;
        }
        let ghost written = self@;

        let mut i: u16 = 0;
        while i < pages_added
            invariant
                self.wf(),
                self@.sections == rows,
                self@.pages.len() == body + pages_added,
                i <= pages_added,
                self@.roman_folios(pages_added as int, i as int) == written.roman_folios(
                    pages_added as int,
                    0,
                ),
            decreases pages_added - i,
        {
            let page_num = to_roman_numeral((i + 1) as u32);
            let (x, y) = self.document.geometry.to_absolute(950_000, 50_000);
            let object = PageObject::Text {
                text: page_num,
                font: Font::Regular,
                size: 10_000,
                x,
                y,
                color: Color::new(0, 0, 0, 255),
            };
            self.document.place((start_page + i) as usize, object);
            i += 1;
        }
        let ghost numbered = self@;

        let mut at: usize = 0;
        while at < sections.len()
            invariant
                at <= sections.len(),
                self@.sections.len() == rows.len(),
                forall|i: int|
                    0 <= i < rows.len() ==> #[trigger] self@.sections[i] == if i < at {
                        (rows[i].0, (rows[i].1 + pages_added) as u32)
                    } else {
                        rows[i]
                    },
                self@ == (Layout { sections: self@.sections, ..numbered }),
            decreases sections.len() - at,
        {
            let moved: u32 = sections[at].1 + pages_added as u32;
            set_number_at(&mut self.section_page_map, at, moved);
            at += 1;
        }
        proof {
            assert(self@.sections =~= shifted(rows, pages_added as int));
            assert forall|a: int, b: int| 0 <= a < b < self@.sections.len() implies (
            #[trigger] self@.sections[a]).0 != (#[trigger] self@.sections[b]).0 by {
                assert(rows[a].0 != rows[b].0);
            }
            assert forall|a: int| 0 <= a < self@.sections.len() implies (
            #[trigger] self@.sections[a]).1 < self@.pages.len() by {
                assert(rows[a].1 < body);
            }
        }
        self.record_section("Table of Contents", pages_added as u32);
        self.add_page_numbers();

        Ok(pages_added as u32)
    }
}

} // verus!
