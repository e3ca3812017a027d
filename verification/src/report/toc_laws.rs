//! What inserting the table of contents does to the pages and the records of the body.

use crate::ordered_map::{distinct_names, lemma_recorded, number_of, recorded, shifted, Records};
use crate::report::document::{Color, PlacedObject, MAX_PAGES};
use crate::report::fonts::Font;
use crate::report::layout::{dots, overflows, remaining, Layout};
use crate::report::numerals::{decimal_text, roman_text};
use crate::report::units::{FONT_SIZE, SECTION_HEADER_FONT_SIZE, TOP_MARGIN};
use vstd::prelude::*;

verus! {

/// Inserting a page shifts what lies at or behind it by one and nothing else: the pages
/// before the index are left as they were, each page at or behind it lies one place
/// further on, the new page is empty and is the one being written, and no record changes.
pub proof fn lemma_page_inserted(before: Layout, index: int)
    requires
        0 <= index <= before.pages.len(),
        before.page_at(index) is Some,
    ensures
        ({
            let after = before.page_at(index)->Some_0;
            &&& after.pages.len() == before.pages.len() + 1
            &&& after.current_page == index
            &&& after.pages[index] == Seq::<PlacedObject>::empty()
            &&& forall|p: int| 0 <= p < index ==> #[trigger] after.pages[p] == before.pages[p]
            &&& forall|p: int|
                index <= p < before.pages.len() ==> after.pages[p + 1] == #[trigger] before.pages[p]
            &&& after.sections == before.sections
        }),
{
}

/// Whether `now` is `before` with `added` pages inserted behind the first page: the first
/// page and the pages behind the inserted ones hold what they held, the last inserted page
/// is the one being written, the document is within its limit, and the records are
/// untouched.
pub open spec fn body_moved(before: Layout, now: Layout, added: int) -> bool {
    &&& added >= 1
    &&& now.pages.len() == before.pages.len() + added
    &&& now.pages.len() <= MAX_PAGES
    &&& now.pages[0] == before.pages[0]
    &&& forall|j: int|
        1 <= j < before.pages.len() ==> now.pages[j + added] == #[trigger] before.pages[j]
    &&& now.current_page == added
    &&& now.sections == before.sections
    &&& now.geometry == before.geometry
    &&& now.fonts == before.fonts
}

/// Placing an object on an inserted page leaves the body where it is.
pub proof fn lemma_placed_keeps_body(
    before: Layout,
    now: Layout,
    added: int,
    page: int,
    object: PlacedObject,
)
    requires
        before.pages.len() >= 1,
        body_moved(before, now, added),
        1 <= page <= added,
    ensures
        body_moved(before, now.placed_on(page, object), added),
{
    let next = now.placed_on(page, object);
    assert forall|j: int| 1 <= j < before.pages.len() implies next.pages[j + added]
        == #[trigger] before.pages[j] by {
        assert(now.pages[j + added] == before.pages[j]);
    }
}

/// Writing a row of the table moves the body by one more page if the row breaks the page,
/// and leaves it where it is otherwise.
pub proof fn lemma_row_keeps_body(
    before: Layout,
    now: Layout,
    name: Seq<char>,
    page: u32,
    y: int,
    added: int,
)
    requires
        before.pages.len() >= 1,
        body_moved(before, now, added),
        now.toc_row(name, page, y, added) is Some,
    ensures
        ({
            let (next, next_y, count) = now.toc_row(name, page, y, added)->Some_0;
            body_moved(before, next, count) && added <= count <= added + 1
        }),
{
    let (next, next_y, count) = now.toc_row(name, page, y, added)->Some_0;
    let breaks = overflows(y, now.line_height());
    let started = if breaks {
        now.page_at(1 + added)->Some_0
    } else {
        now
    };
    assert(body_moved(before, started, count)) by {
        if breaks {
            assert forall|j: int| 1 <= j < before.pages.len() implies started.pages[j + count]
                == #[trigger] before.pages[j] by {
                assert(now.pages[j + added] == before.pages[j]);
            }
        }
    }
    let at = if breaks {
        TOP_MARGIN as int
    } else {
        y
    };
    let number = decimal_text((page + count) as nat);
    let first = started.text_object(
        name,
        Font::Regular,
        FONT_SIZE,
        100_000,
        at,
        Color::black(),
    );
    lemma_placed_keeps_body(before, started, count, count, first);
    let named = started.placed_on(count, first);
    let second = named.text_object(
        number,
        Font::Regular,
        FONT_SIZE,
        900_000,
        at,
        Color::black(),
    );
    lemma_placed_keeps_body(before, named, count, count, second);
    let numbered = named.placed_on(count, second);
    let start_x = 100_000 + started.width_of(
        name,
        Font::Regular,
        FONT_SIZE,
    ) + 10_000;
    let end_x = 900_000 - started.width_of(
        number,
        Font::Regular,
        FONT_SIZE,
    ) - 10_000;
    let leader = numbered.text_object(
        dots(numbered.leader_count(end_x - start_x)),
        Font::Regular,
        FONT_SIZE,
        start_x,
        at,
        Color::black(),
    );
    lemma_placed_keeps_body(before, numbered, count, count, leader);
    assert(next == numbered.placed_on(count, leader));
}

/// Writing the rows of the table moves the body by the pages inserted and leaves it as it
/// was.
pub proof fn lemma_rows_keep_body(
    before: Layout,
    now: Layout,
    rows: Records,
    from: int,
    y: int,
    added: int,
)
    requires
        before.pages.len() >= 1,
        body_moved(before, now, added),
        0 <= from,
        now.toc_rows(rows, from, y, added) is Some,
    ensures
        ({
            let (last, last_y, count) = now.toc_rows(rows, from, y, added)->Some_0;
            body_moved(before, last, count) && added <= count <= added + (if from < rows.len() {
                rows.len() - from
            } else {
                0
            })
        }),
    decreases rows.len() - from,
{
    if from < rows.len() {
        lemma_row_keeps_body(before, now, rows[from].0, rows[from].1, y, added);
        let (next, next_y, count) = now.toc_row(rows[from].0, rows[from].1, y, added)->Some_0;
        lemma_rows_keep_body(before, next, rows, from + 1, next_y, count);
    }
}

/// The roman folios go on the inserted pages and leave the body as it was.
pub proof fn lemma_roman_folios_keep_body(before: Layout, now: Layout, added: int, from: int)
    requires
        before.pages.len() >= 1,
        body_moved(before, now, added),
        0 <= from,
    ensures
        body_moved(before, now.roman_folios(added, from), added),
    decreases added - from,
{
    if from < added {
        let object = now.folio(roman_text((from + 1) as nat), 10_000);
        lemma_placed_keeps_body(before, now, added, 1 + from, object);
        lemma_roman_folios_keep_body(before, now.placed_on(1 + from, object), added, from + 1);
    }
}

/// The arabic folios from `page` on: each page from there on gains its folio, which counts
/// up from `number`, and the pages before it are left as they were.
pub proof fn lemma_arabic_folios(now: Layout, page: int, number: int)
    requires
        0 <= page,
    ensures
        ({
            let done = now.arabic_folios(page, number);
            &&& done.pages.len() == now.pages.len()
            &&& done.current_page == now.current_page
            &&& done.sections == now.sections
            &&& done.geometry == now.geometry
            &&& done.fonts == now.fonts
            &&& forall|p: int|
                0 <= p < page && p < now.pages.len() ==> done.pages[p] == #[trigger] now.pages[p]
            &&& forall|p: int|
                page <= p < now.pages.len() ==> done.pages[p] == (#[trigger] now.pages[p]).push(
                    now.folio(decimal_text((number + p - page) as nat), 12_000),
                )
        }),
    decreases now.pages.len() - page,
{
    if page < now.pages.len() {
        let object = now.folio(decimal_text(number as nat), 12_000);
        let next = now.placed_on(page, object);
        lemma_arabic_folios(next, page + 1, number + 1);
        let done = now.arabic_folios(page, number);
        assert(done == next.arabic_folios(page + 1, number + 1));
        assert forall|p: int| 0 <= p < page && p < now.pages.len() implies done.pages[p]
            == #[trigger] now.pages[p] by {
            assert(done.pages[p] == next.pages[p]);
        }
        assert forall|p: int| page <= p < now.pages.len() implies done.pages[p] == (
        #[trigger] now.pages[p]).push(
            now.folio(decimal_text((number + p - page) as nat), 12_000),
        ) by {
            if p == page {
                assert(done.pages[p] == next.pages[p]);
            } else {
                assert(done.pages[p] == next.pages[p].push(
                    next.folio(decimal_text((number + 1 + p - (page + 1)) as nat), 12_000),
                ));
            }
        }
    }
}

/// Inserting the table of contents shifts the body and nothing else. Where `added` pages
/// are inserted, one and then one more for each row that does not fit on the page before
/// it: the title page is left as it was; each page behind it lies `added` places
/// further on, and holds what it held and, last, its folio, which is its old index; each
/// record of another section holds its old page plus `added`; and the table itself is
/// recorded with `added`.
pub proof fn lemma_toc_shifts_body(before: Layout)
    requires
        before.wf(),
        before.pages.len() >= 1,
        before.table_of_contents() is Some,
    ensures
        ({
            let (after, added) = before.table_of_contents()->Some_0;
            &&& 1 <= added <= 1 + before.sections.len()
            &&& after.pages.len() == before.pages.len() + added
            &&& after.pages[0] == before.pages[0]
            &&& forall|j: int|
                1 <= j < before.pages.len() ==> after.pages[j + added] == (
                #[trigger] before.pages[j]).push(before.folio(decimal_text(j as nat), 12_000))
            &&& after.sections == recorded(
                shifted(before.sections, added),
                "Table of Contents"@,
                added as u32,
            )
            &&& forall|i: int|
                0 <= i < before.sections.len() && (#[trigger] before.sections[i]).0
                    != "Table of Contents"@ ==> after.sections[i] == (
                    before.sections[i].0,
                    (before.sections[i].1 + added) as u32,
                )
            &&& number_of(after.sections, "Table of Contents"@) == Some(added as u32)
        }),
{
    let (after, added) = before.table_of_contents()->Some_0;
    let first = before.page_at(1)->Some_0;
    let title = first.text_object(
        "Table of Contents"@,
        Font::Bold,
        SECTION_HEADER_FONT_SIZE,
        100_000,
        900_000,
        Color::black(),
    );
    let titled = first.placed_on(1, title);
    assert(body_moved(before, first, 1)) by {
        assert forall|j: int| 1 <= j < before.pages.len() implies first.pages[j + 1]
            == #[trigger] before.pages[j] by {}
    }
    lemma_placed_keeps_body(before, first, 1, 1, title);
    lemma_rows_keep_body(before, titled, before.sections, 0, 850_000, 1);
    let (written, y, count) = titled.toc_rows(before.sections, 0, 850_000, 1)->Some_0;
    assert(count == added);
    lemma_roman_folios_keep_body(before, written, added, 0);
    let numbered = written.roman_folios(added, 0);
    let moved = shifted(before.sections, added);
    assert(distinct_names(moved)) by {
        assert forall|a: int, b: int| 0 <= a < b < moved.len() implies (#[trigger] moved[a]).0 != (
        #[trigger] moved[b]).0 by {
            assert(before.sections[a].0 != before.sections[b].0);
        }
    }
    assert(added <= 65_535);
    lemma_recorded(moved, "Table of Contents"@, added as u32);
    let renumbered = Layout {
        sections: recorded(moved, "Table of Contents"@, added as u32),
        ..numbered
    };
    lemma_arabic_folios(renumbered, added + 1, 1);
    assert forall|j: int| 1 <= j < before.pages.len() implies after.pages[j + added] == (
    #[trigger] before.pages[j]).push(before.folio(decimal_text(j as nat), 12_000)) by {
        assert(numbered.pages[j + added] == before.pages[j]);
        assert(after.pages[j + added] == renumbered.pages[j + added].push(
            renumbered.folio(decimal_text((1 + (j + added) - (added + 1)) as nat), 12_000),
        ));
    }
    assert forall|i: int|
        0 <= i < before.sections.len() && (#[trigger] before.sections[i]).0
            != "Table of Contents"@ implies after.sections[i] == (
        before.sections[i].0,
        (before.sections[i].1 + added) as u32,
    ) by {
        assert(moved[i].0 != "Table of Contents"@);
    }
}

/// A row of the table of contents lies on one page: where it does not fit above the bottom
/// margin, a page is inserted behind the page being written before anything of the row is
/// written, the row is all that the new page holds, and no page that was there gains
/// anything; else the row is added to the page being written, and to no other.
pub proof fn lemma_toc_row_unsplit(now: Layout, name: Seq<char>, page: u32, y: int, added: int)
    requires
        now.wf(),
        now.pages.len() >= 1,
        now.current_page == added,
        now.toc_row(name, page, y, added) is Some,
    ensures
        ({
            let (next, next_y, count) = now.toc_row(name, page, y, added)->Some_0;
            if overflows(y, now.line_height()) {
                &&& count == added + 1
                &&& next.current_page == added + 1
                &&& next.pages.len() == now.pages.len() + 1
                &&& next.pages[added + 1].len() == 3
                &&& forall|p: int| 0 <= p <= added ==> #[trigger] next.pages[p] == now.pages[p]
                &&& forall|p: int|
                    added < p < now.pages.len() ==> next.pages[p + 1] == #[trigger] now.pages[p]
            } else {
                &&& count == added
                &&& next.current_page == added
                &&& next.pages.len() == now.pages.len()
                &&& now.pages[added].is_prefix_of(next.pages[added])
                &&& next.pages[added].len() == now.pages[added].len() + 3
                &&& forall|p: int|
                    0 <= p < now.pages.len() && p != added ==> #[trigger] next.pages[p]
                        == now.pages[p]
            }
        }),
{
    let breaks = overflows(y, now.line_height());
    if breaks {
        let started = now.page_at(1 + added)->Some_0;
        assert(started.pages[added + 1] == Seq::<PlacedObject>::empty());
        assert forall|p: int| added < p < now.pages.len() implies started.pages[p + 1]
            == #[trigger] now.pages[p] by {}
    }
}

/// The number that a row of the table of contents shows is the recorded page plus the
/// pages inserted by the time the row is written, the page that the row itself makes
/// necessary among them. It is the last but one object of the page that the row is on.
pub proof fn lemma_toc_row_number(now: Layout, name: Seq<char>, page: u32, y: int, added: int)
    requires
        now.wf(),
        now.pages.len() >= 1,
        now.current_page == added,
        now.toc_row(name, page, y, added) is Some,
    ensures
        ({
            let (next, next_y, count) = now.toc_row(name, page, y, added)->Some_0;
            let breaks = overflows(y, now.line_height());
            let row = next.pages[count];
            &&& count == if breaks {
                added + 1
            } else {
                added
            }
            &&& row.len() >= 3
            &&& row[row.len() - 2] == now.text_object(
                decimal_text((page + count) as nat),
                Font::Regular,
                FONT_SIZE,
                900_000,
                if breaks {
                    TOP_MARGIN as int
                } else {
                    y
                },
                Color::black(),
            )
        }),
{
}

/// Rows that all fit above the bottom margin are written without a page being inserted.
pub proof fn lemma_rows_that_fit(now: Layout, rows: Records, from: int, y: int, added: int)
    requires
        now.geometry.wf(),
        0 <= from <= rows.len(),
        remaining(y) >= (rows.len() - from) * now.line_height(),
        now.toc_rows(rows, from, y, added) is Some,
    ensures
        now.toc_rows(rows, from, y, added)->Some_0.2 == added,
    decreases rows.len() - from,
{
    if from < rows.len() {
        let height = now.line_height();
        assert(height >= 0) by (nonlinear_arith)
            requires
                height == 12_000_000_000int / (now.geometry.height as int) + 5_000,
                now.geometry.height > 0,
        ;
        assert((rows.len() - from) * height == height + (rows.len() - from - 1) * height
            && (rows.len() - from - 1) * height >= 0) by (nonlinear_arith)
            requires
                rows.len() - from >= 1,
                height >= 0,
        ;
        let (next, next_y, count) = now.toc_row(rows[from].0, rows[from].1, y, added)->Some_0;
        lemma_rows_that_fit(next, rows, from + 1, next_y, count);
    }
}

/// A table of contents whose rows all fit below its header takes one page: where the
/// records, at the height of a line each, take no more than the space that is left below
/// the header, one page is inserted, and each record is moved by one.
pub proof fn lemma_short_toc_takes_one_page(before: Layout)
    requires
        before.wf(),
        before.pages.len() >= 1,
        before.table_of_contents() is Some,
        before.sections.len() * before.line_height() <= remaining(850_000),
    ensures
        before.table_of_contents()->Some_0.1 == 1,
        before.table_of_contents()->Some_0.0.pages.len() == before.pages.len() + 1,
{
    let first = before.page_at(1)->Some_0;
    let titled = first.black_text(
        "Table of Contents"@,
        Font::Bold,
        SECTION_HEADER_FONT_SIZE,
        100_000,
        900_000,
    );
    lemma_rows_that_fit(titled, before.sections, 0, 850_000, 1);
    lemma_toc_shifts_body(before);
}

} // verus!
