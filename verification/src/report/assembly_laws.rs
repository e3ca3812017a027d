//! What holds of every report: only the start of a section and the table of contents
//! change the section records, so that a report has its five records in their fixed order.

use crate::data::base::{ColumnType, DataInfo};
use crate::data::missing_values::ColumnMissingValues;
use crate::ordered_map::{has_name, index_of_name, number_of, recorded, shifted, Records};
use crate::report::document::Color;
use crate::report::fonts::{Font, FontSet};
use crate::report::glossary::{category_name, glossary_definitions, glossary_terms};
use crate::report::glossary_page::DEFINITION_FONT_SIZE;
use crate::report::layout::Layout;
use crate::report::toc_laws::{
    body_moved, lemma_arabic_folios, lemma_placed_keeps_body, lemma_roman_folios_keep_body,
    lemma_rows_keep_body,
};
use crate::report::units::{PageGeometry, FONT_SIZE, LINE_HEIGHT_PADDING, SECTION_HEADER_FONT_SIZE};
use crate::report::wrap::wrapped;
use vstd::prelude::*;

verus! {

/// Whether the page being written is a page of the layout.
pub open spec fn on_a_page(layout: Layout) -> bool {
    0 <= layout.current_page < layout.pages.len()
}

/// Whether `after` has the records, the fonts and the page size of `before`, and no fewer
/// pages, and writes on one of them.
pub open spec fn keeps_records(before: Layout, after: Layout) -> bool {
    &&& after.sections == before.sections
    &&& after.geometry == before.geometry
    &&& after.fonts == before.fonts
    &&& after.pages.len() >= before.pages.len()
    &&& on_a_page(after)
}

/// Stacking lines changes no record.
pub proof fn lemma_stacked_lines_keep_records(
    now: Layout,
    lines: Seq<Seq<char>>,
    from: int,
    y: int,
    height: int,
)
    requires
        on_a_page(now),
        0 <= from,
    ensures
        keeps_records(now, now.stacked_lines(lines, from, y, height)),
    decreases lines.len() - from,
{
    if from < lines.len() {
        let next = now.black_text(
            lines[from],
            Font::Regular,
            FONT_SIZE,
            700_000,
            y - from * height,
        );
        lemma_stacked_lines_keep_records(next, lines, from + 1, y, height);
    }
}

/// The rows of the data types overview change no record.
pub proof fn lemma_data_type_rows_keep_records(
    now: Layout,
    columns: Seq<ColumnType>,
    from: int,
    y: int,
)
    requires
        on_a_page(now),
        0 <= from,
        now.data_type_rows(columns, from, y) is Some,
    ensures
        keeps_records(now, now.data_type_rows(columns, from, y)->Some_0.0),
    decreases columns.len() - from,
{
    if from < columns.len() {
        let height = now.row_height(FONT_SIZE, 10_000);
        let (room, at) = now.room_for(y, 3 * height)->Some_0;
        let shaded = if from % 2 == 0 {
            room.rectangle(
                100_000,
                at + height,
                900_000,
                at - height,
                Color::stripe(),
            )
        } else {
            room
        };
        let typed = shaded.black_text(
            columns[from].name@,
            Font::Regular,
            FONT_SIZE,
            110_000,
            at,
        ).black_text(
            columns[from].type_text@,
            Font::Regular,
            FONT_SIZE,
            400_000,
            at,
        );
        let lines = wrapped(
            category_name(columns[from].data_type),
            now.category_measure(),
        );
        lemma_stacked_lines_keep_records(typed, lines, 0, at, height);
        let (next, next_y) = now.data_type_row(columns[from], from % 2 == 0, y)->Some_0;
        lemma_data_type_rows_keep_records(next, columns, from + 1, next_y);
    }
}

/// The statistics of a feature change no record.
pub proof fn lemma_statistics_keep_records(
    now: Layout,
    stats: Seq<(Seq<char>, Seq<char>)>,
    from: int,
    counter: int,
    y: int,
)
    requires
        on_a_page(now),
        0 <= from,
        now.statistics(stats, from, counter, y) is Some,
    ensures
        keeps_records(now, now.statistics(stats, from, counter, y)->Some_0.0),
    decreases stats.len() - from,
{
    if from < stats.len() {
        if stats[from].0 == "column_name"@ {
            lemma_statistics_keep_records(now, stats, from + 1, counter, y);
        } else {
            let (next, next_y) = now.statistic(stats[from].0, stats[from].1, counter, y)->Some_0;
            lemma_statistics_keep_records(next, stats, from + 1, counter + 1, next_y);
        }
    }
}

/// The blocks of the features change no record.
pub proof fn lemma_feature_blocks_keep_records(
    now: Layout,
    values: Seq<Seq<(Seq<char>, Seq<char>)>>,
    from: int,
    y: int,
)
    requires
        on_a_page(now),
        0 <= from,
        now.feature_blocks(values, from, y) is Some,
    ensures
        keeps_records(now, now.feature_blocks(values, from, y)->Some_0.0),
    decreases values.len() - from,
{
    if from < values.len() {
        let stats = values[from];
        let (ruled, first) = now.feature_header(stats[0].1, y)->Some_0;
        lemma_statistics_keep_records(ruled, stats, 0, 0, first);
        let (next, next_y) = now.feature_block(stats, y)->Some_0;
        lemma_feature_blocks_keep_records(next, values, from + 1, next_y);
    }
}

/// The rows of the table of missing values change no record.
pub proof fn lemma_missing_rows_keep_records(
    now: Layout,
    entries: Seq<ColumnMissingValues>,
    from: int,
    y: int,
)
    requires
        on_a_page(now),
        0 <= from,
        now.missing_rows(entries, from, y) is Some,
    ensures
        keeps_records(now, now.missing_rows(entries, from, y)->Some_0.0),
    decreases entries.len() - from,
{
    if from < entries.len() {
        let (next, next_y) = now.missing_row(entries[from], y)->Some_0;
        lemma_missing_rows_keep_records(next, entries, from + 1, next_y);
    }
}

/// The lines of a definition change no record.
pub proof fn lemma_definition_lines_keep_records(
    now: Layout,
    lines: Seq<Seq<char>>,
    from: int,
    y: int,
)
    requires
        on_a_page(now),
        0 <= from,
        now.definition_lines(lines, from, y) is Some,
    ensures
        keeps_records(now, now.definition_lines(lines, from, y)->Some_0.0),
    decreases lines.len() - from,
{
    if from < lines.len() {
        let (next, below) = now.written_line(
            lines[from],
            Font::Regular,
            DEFINITION_FONT_SIZE,
            150_000,
            y,
            now.row_height(
                DEFINITION_FONT_SIZE,
                LINE_HEIGHT_PADDING as int,
            ),
        )->Some_0;
        lemma_definition_lines_keep_records(next, lines, from + 1, below);
    }
}

/// The entries of the glossary change no record.
pub proof fn lemma_glossary_entries_keep_records(
    now: Layout,
    terms: Seq<Seq<char>>,
    definitions: Seq<Seq<char>>,
    from: int,
    y: int,
)
    requires
        on_a_page(now),
        0 <= from,
        now.glossary_entries(terms, definitions, from, y) is Some,
    ensures
        keeps_records(now, now.glossary_entries(terms, definitions, from, y)->Some_0.0),
    decreases terms.len() - from,
{
    if from < terms.len() {
        let term_height = now.row_height(
            FONT_SIZE,
            LINE_HEIGHT_PADDING as int,
        );
        let height = now.row_height(
            DEFINITION_FONT_SIZE,
            LINE_HEIGHT_PADDING as int,
        );
        let (room, at) = now.room_for(y, term_height + height)->Some_0;
        let lines = wrapped(definitions[from], now.definition_measure());
        let termed = room.black_text(
            terms[from],
            Font::Bold,
            FONT_SIZE,
            100_000,
            at,
        );
        lemma_definition_lines_keep_records(termed, lines, 0, at - term_height);
        let (next, next_y) = now.glossary_entry(terms[from], definitions[from], y)->Some_0;
        lemma_glossary_entries_keep_records(next, terms, definitions, from + 1, next_y);
    }
}

/// The table of contents moves every record by the pages inserted and records itself;
/// it changes no record otherwise.
pub proof fn lemma_toc_records(before: Layout)
    requires
        before.pages.len() >= 1,
        before.table_of_contents() is Some,
    ensures
        ({
            let (after, added) = before.table_of_contents()->Some_0;
            &&& 1 <= added <= 65_535
            &&& after.pages.len() == before.pages.len() + added
            &&& after.pages.len() <= 65_535
            &&& after.sections == recorded(
                shifted(before.sections, added),
                "Table of Contents"@,
                added as u32,
            )
        }),
{
    let first = before.page_at(1)->Some_0;
    let title = first.text_object(
        "Table of Contents"@,
        Font::Bold,
        SECTION_HEADER_FONT_SIZE,
        100_000,
        900_000,
        Color::black(),
    );
    assert(body_moved(before, first, 1)) by {
        assert forall|j: int| 1 <= j < before.pages.len() implies first.pages[j + 1]
            == #[trigger] before.pages[j] by {}
    }
    lemma_placed_keeps_body(before, first, 1, 1, title);
    let titled = first.placed_on(1, title);
    lemma_rows_keep_body(before, titled, before.sections, 0, 850_000, 1);
    let (written, y, added) = titled.toc_rows(before.sections, 0, 850_000, 1)->Some_0;
    lemma_roman_folios_keep_body(before, written, added, 0);
    let numbered = written.roman_folios(added, 0);
    let renumbered = Layout {
        sections: recorded(shifted(numbered.sections, added), "Table of Contents"@, added as u32),
        ..numbered
    };
    lemma_arabic_folios(
        renumbered,
        match number_of(renumbered.sections, "Table of Contents"@) {
            Some(pages) => pages + 1,
            None => 1,
        },
        1,
    );
}

/// The names of the records.
pub open spec fn names(records: Records) -> Seq<Seq<char>> {
    Seq::new(records.len(), |i: int| records[i].0)
}

/// The names of the sections of a report, in the order in which they are recorded.
pub open spec fn section_names() -> Seq<Seq<char>> {
    seq![
        "Data Types Overview"@,
        "Descriptive Analysis"@,
        "Missing Values Analysis"@,
        "Glossary"@,
        "Table of Contents"@,
    ]
}

/// Recording a name that is none of the names recorded adds it behind them.
pub proof fn lemma_new_name(records: Records, name: Seq<char>, number: u32)
    requires
        forall|i: int| 0 <= i < records.len() ==> (#[trigger] records[i]).0.len() != name.len(),
    ensures
        recorded(records, name, number) == records.push((name, number)),
        names(recorded(records, name, number)) == names(records).push(name),
{
    if has_name(records, name) {
        let at = index_of_name(records, name);
        assert(records[at].0.len() == name.len());
    }
    assert(names(records.push((name, number))) =~= names(records).push(name));
}

/// A report made from an empty document has five records: its four sections in the order
/// in which they are written, and the table of contents last. The table is recorded with
/// the number of its pages; the data types overview starts on the page behind the table,
/// each section starts behind the start of the one before, and all start on pages of the
/// document.
pub proof fn lemma_report_sections(
    fonts: FontSet,
    geometry: PageGeometry,
    info: DataInfo,
    date: Seq<char>,
)
    requires
        Layout::empty(fonts, geometry).report(info, date) is Some,
    ensures
        ({
            let done = Layout::empty(fonts, geometry).report(info, date)->Some_0;
            let records = done.sections;
            &&& names(records) == section_names()
            &&& records.len() == 5
            &&& 1 <= records[4].1
            &&& records[0].1 == records[4].1 + 1
            &&& records[0].1 < records[1].1 < records[2].1 < records[3].1 < done.pages.len()
        }),
{
    reveal_strlit("Data Types Overview");
    reveal_strlit("Descriptive Analysis");
    reveal_strlit("Missing Values Analysis");
    reveal_strlit("Glossary");
    reveal_strlit("Table of Contents");
    let start = Layout::empty(fonts, geometry);
    let titled = start.title_page(info.data_title@, date)->Some_0;
    assert(titled.sections =~= Seq::<(Seq<char>, u32)>::empty());
    assert(titled.pages.len() == 1);

    // The data types overview.
    let typed = titled.data_types_page(info.column_types@)->Some_0;
    let begun = titled.begin_section("Data Types Overview"@)->Some_0;
    let height = begun.row_height(FONT_SIZE, 10_000);
    let headed = begun.black_text(
        "Feature"@,
        Font::Bold,
        FONT_SIZE,
        100_000,
        850_000,
    ).black_text(
        "Data Type"@,
        Font::Bold,
        FONT_SIZE,
        400_000,
        850_000,
    ).black_text(
        "Category"@,
        Font::Bold,
        FONT_SIZE,
        700_000,
        850_000,
    ).line(100_000, 850_000 - height / 2, 900_000, 850_000 - height / 2, 1_000);
    lemma_data_type_rows_keep_records(headed, info.column_types@, 0, 850_000 - 2 * height);
    lemma_new_name(titled.sections, "Data Types Overview"@, begun.current_page as u32);
    assert(names(typed.sections) =~= seq!["Data Types Overview"@]);
    assert(typed.sections =~= seq![("Data Types Overview"@, 1u32)]);
    assert(typed.pages.len() >= 2);
    let second = typed.pages.len();

    // The descriptive analysis.
    let analysis = info.descriptive_analysis;
    let described = typed.descriptive_page(
        analysis.n_rows,
        analysis.n_cols,
        analysis.values(),
    )->Some_0;
    let shaped = typed.descriptive_header(analysis.n_rows, analysis.n_cols)->Some_0;
    let opened = typed.new_page()->Some_0;
    lemma_feature_blocks_keep_records(
        shaped,
        analysis.values(),
        0,
        860_000 - 2 * shaped.row_height(
            FONT_SIZE,
            LINE_HEIGHT_PADDING as int,
        ),
    );
    lemma_new_name(typed.sections, "Descriptive Analysis"@, opened.current_page as u32);
    assert(names(described.sections) =~= seq![
        "Data Types Overview"@,
        "Descriptive Analysis"@,
    ]);

    let third = described.pages.len();

    // The missing values analysis.
    let entries = info.missing_value_analysis.column_missing_values@;
    let counted = described.missing_values_page(entries)->Some_0;
    let started = described.begin_section("Missing Values Analysis"@)->Some_0;
    let row = started.row_height(FONT_SIZE, 10_000);
    let tabled = started.black_text(
        "Feature"@,
        Font::Bold,
        FONT_SIZE,
        100_000,
        850_000,
    ).black_text(
        "Missing Count"@,
        Font::Bold,
        FONT_SIZE,
        400_000,
        850_000,
    ).black_text(
        "Missing Percentage"@,
        Font::Bold,
        FONT_SIZE,
        700_000,
        850_000,
    ).line(100_000, 830_000, 900_000, 830_000, 1_000);
    lemma_missing_rows_keep_records(tabled, entries, 0, 850_000 - 2 * row);
    lemma_new_name(
        described.sections,
        "Missing Values Analysis"@,
        started.current_page as u32,
    );
    assert(names(counted.sections) =~= seq![
        "Data Types Overview"@,
        "Descriptive Analysis"@,
        "Missing Values Analysis"@,
    ]);

    let fourth = counted.pages.len();

    // The glossary.
    let explained = counted.glossary_page()->Some_0;
    let listed = counted.begin_section("Glossary"@)->Some_0;
    lemma_glossary_entries_keep_records(
        listed,
        glossary_terms(),
        glossary_definitions(),
        0,
        850_000,
    );
    lemma_new_name(counted.sections, "Glossary"@, listed.current_page as u32);
    assert(names(explained.sections) =~= seq![
        "Data Types Overview"@,
        "Descriptive Analysis"@,
        "Missing Values Analysis"@,
        "Glossary"@,
    ]);

    // The table of contents.
    lemma_toc_records(explained);
    let (done, added) = explained.table_of_contents()->Some_0;
    let moved = shifted(explained.sections, added);
    assert(names(moved) =~= names(explained.sections));
    lemma_new_name(moved, "Table of Contents"@, added as u32);
    assert(names(done.sections) =~= section_names());
    assert(explained.sections =~= seq![
        ("Data Types Overview"@, 1u32),
        ("Descriptive Analysis"@, second as u32),
        ("Missing Values Analysis"@, third as u32),
        ("Glossary"@, fourth as u32),
    ]);
    assert(second < third < fourth < explained.pages.len());
    assert(done.sections =~= moved.push(("Table of Contents"@, added as u32)));
}

} // verus!
