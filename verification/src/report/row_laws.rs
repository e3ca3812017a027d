//! No row is split across two pages: where a row does not fit above the bottom margin, the
//! page is broken before anything of the row is written.

use crate::data::base::ColumnType;
use crate::data::missing_values::{percentage_text, ColumnMissingValues};
use crate::report::document::{Color, PlacedObject};
use crate::report::fonts::Font;
use crate::report::glossary::category_name;
use crate::report::layout::{overflows, Layout};
use crate::report::numerals::decimal_text;
use crate::report::units::{
    scaled, FEATURE_HEADER_FONT_SIZE, FONT_SIZE, LINE_HEIGHT_PADDING, TOP_MARGIN,
};
use crate::report::wrap::wrapped;
use vstd::prelude::*;

verus! {

/// Whether `after` is `before` with objects added to one page only, the page that `after`
/// writes on: if `broke`, a new last page, which holds nothing else; if not, the page
/// that `before` writes on, which holds them behind what it held.
pub open spec fn on_one_page(before: Layout, after: Layout, broke: bool) -> bool {
    &&& after.geometry == before.geometry
    &&& after.fonts == before.fonts
    &&& after.sections == before.sections
    &&& forall|p: int|
        0 <= p < before.pages.len() && p != after.current_page ==> #[trigger] after.pages[p]
            == before.pages[p]
    &&& if broke {
        &&& after.pages.len() == before.pages.len() + 1
        &&& after.current_page == before.pages.len()
    } else {
        &&& after.pages.len() == before.pages.len()
        &&& after.current_page == before.current_page
        &&& before.pages[before.current_page].is_prefix_of(after.pages[after.current_page])
    }
}

/// Placing one more object on the page being written keeps the objects on one page.
pub proof fn lemma_placed_on_one_page(
    before: Layout,
    now: Layout,
    broke: bool,
    object: PlacedObject,
)
    requires
        before.wf(),
        before.pages.len() >= 1,
        on_one_page(before, now, broke),
    ensures
        on_one_page(before, now.placed(object), broke),
{
    let after = now.placed(object);
    assert forall|p: int|
        0 <= p < before.pages.len() && p != after.current_page implies #[trigger] after.pages[p]
        == before.pages[p] by {
        assert(now.pages[p] == before.pages[p]);
    }
}

/// Room is made before anything is written: where content of the given height would
/// cross the bottom margin, the layout gains an empty last page, which becomes the page
/// being written, and writing resumes at the top margin; else nothing changes.
pub proof fn lemma_room_breaks_before(before: Layout, y: int, height: int)
    requires
        before.wf(),
        before.pages.len() >= 1,
        before.room_for(y, height) is Some,
    ensures
        ({
            let (after, at) = before.room_for(y, height)->Some_0;
            &&& on_one_page(before, after, overflows(y, height))
            &&& overflows(y, height) ==> at == TOP_MARGIN && after.pages[after.current_page]
                == Seq::<PlacedObject>::empty()
            &&& !overflows(y, height) ==> at == y && after == before
        }),
{
}

/// A row of the table of missing values lies on one page: where it does not fit above the
/// bottom margin, on a new page, and nothing of it on the page before.
pub proof fn lemma_missing_row_unsplit(before: Layout, entry: ColumnMissingValues, y: int)
    requires
        before.wf(),
        before.pages.len() >= 1,
        before.missing_row(entry, y) is Some,
    ensures
        ({
            let (after, next_y) = before.missing_row(entry, y)->Some_0;
            let broke = overflows(y, before.row_height(FONT_SIZE, 10_000));
            &&& on_one_page(before, after, broke)
            &&& broke ==> after.pages[after.current_page].len() == 3
        }),
{
    let height = before.row_height(FONT_SIZE, 10_000);
    let broke = overflows(y, height);
    lemma_room_breaks_before(before, y, height);
    let (room, at) = before.room_for(y, height)->Some_0;
    let name = room.text_object(
        entry.column@,
        Font::Regular,
        FONT_SIZE,
        100_000,
        at,
        Color::black(),
    );
    lemma_placed_on_one_page(before, room, broke, name);
    let named = room.placed(name);
    let count = named.text_object(
        decimal_text(entry.count as nat),
        Font::Regular,
        FONT_SIZE,
        400_000,
        at,
        Color::black(),
    );
    lemma_placed_on_one_page(before, named, broke, count);
    let counted = named.placed(count);
    let share = counted.text_object(
        percentage_text(entry.percentage),
        Font::Regular,
        FONT_SIZE,
        700_000,
        at,
        Color::black(),
    );
    lemma_placed_on_one_page(before, counted, broke, share);
}

/// Stacking lines on the page being written keeps the objects on one page.
pub proof fn lemma_stacked_on_one_page(
    before: Layout,
    now: Layout,
    broke: bool,
    lines: Seq<Seq<char>>,
    from: int,
    y: int,
    height: int,
)
    requires
        before.wf(),
        before.pages.len() >= 1,
        on_one_page(before, now, broke),
        0 <= from,
    ensures
        on_one_page(before, now.stacked_lines(lines, from, y, height), broke),
    decreases lines.len() - from,
{
    if from < lines.len() {
        let object = now.text_object(
            lines[from],
            Font::Regular,
            FONT_SIZE,
            700_000,
            y - from * height,
            Color::black(),
        );
        lemma_placed_on_one_page(before, now, broke, object);
        lemma_stacked_on_one_page(before, now.placed(object), broke, lines, from + 1, y, height);
    }
}

/// A row of the data types overview lies on one page, its stripe and the lines of its
/// category with it: where three lines do not fit above the bottom margin, on a new page,
/// and nothing of it on the page before.
pub proof fn lemma_data_type_row_unsplit(before: Layout, column: ColumnType, striped: bool, y: int)
    requires
        before.wf(),
        before.pages.len() >= 1,
        before.data_type_row(column, striped, y) is Some,
    ensures
        ({
            let (after, next_y) = before.data_type_row(column, striped, y)->Some_0;
            on_one_page(before, after, overflows(y, 3 * before.row_height(FONT_SIZE, 10_000)))
        }),
{
    let height = before.row_height(FONT_SIZE, 10_000);
    let broke = overflows(y, 3 * height);
    lemma_room_breaks_before(before, y, 3 * height);
    let (room, at) = before.room_for(y, 3 * height)->Some_0;
    let shaded = if striped {
        room.rectangle(
            100_000,
            at + height,
            900_000,
            at - height,
            Color::stripe(),
        )
    } else {
        room
    };
    if striped {
        lemma_placed_on_one_page(
            before,
            room,
            broke,
            PlacedObject::Rectangle {
                x1: scaled(100_000, room.geometry.width as int),
                y1: scaled(at + height, room.geometry.height as int),
                x2: scaled(900_000, room.geometry.width as int),
                y2: scaled(at - height, room.geometry.height as int),
                color: Color::stripe(),
            },
        );
    }
    let name = shaded.text_object(
        column.name@,
        Font::Regular,
        FONT_SIZE,
        110_000,
        at,
        Color::black(),
    );
    lemma_placed_on_one_page(before, shaded, broke, name);
    let named = shaded.placed(name);
    let kind = named.text_object(
        column.type_text@,
        Font::Regular,
        FONT_SIZE,
        400_000,
        at,
        Color::black(),
    );
    lemma_placed_on_one_page(before, named, broke, kind);
    let lines = wrapped(
        category_name(column.data_type),
        before.category_measure(),
    );
    lemma_stacked_on_one_page(before, named.placed(kind), broke, lines, 0, at, height);
}

/// The sub-header of a feature lies on one page, the name and the rule below it: where
/// the sub-header and seven lines do not fit above the bottom margin, on a new page, and
/// nothing of it on the page before.
pub proof fn lemma_feature_header_unsplit(before: Layout, name: Seq<char>, y: int)
    requires
        before.wf(),
        before.pages.len() >= 1,
        before.feature_header(name, y) is Some,
    ensures
        ({
            let (after, first) = before.feature_header(name, y)->Some_0;
            let broke = overflows(
                y,
                before.feature_header_height() + 7 * before.row_height(
                    FONT_SIZE,
                    LINE_HEIGHT_PADDING as int,
                ),
            );
            &&& on_one_page(before, after, broke)
            &&& broke ==> after.pages[after.current_page].len() == 2
            &&& !broke ==> after.pages[after.current_page].len()
                == before.pages[before.current_page].len() + 2
        }),
{
    let height = before.row_height(FONT_SIZE, LINE_HEIGHT_PADDING as int);
    let header = before.feature_header_height();
    let broke = overflows(y, header + 7 * height);
    lemma_room_breaks_before(before, y, header + 7 * height);
    let (room, at) = before.room_for(y, header + 7 * height)->Some_0;
    let title = room.text_object(
        name,
        Font::Bold,
        FEATURE_HEADER_FONT_SIZE,
        100_000,
        at,
        Color::black(),
    );
    lemma_placed_on_one_page(before, room, broke, title);
    let named = room.placed(title);
    lemma_placed_on_one_page(
        before,
        named,
        broke,
        PlacedObject::Line {
            x1: scaled(100_000, named.geometry.width as int),
            y1: scaled(at - header + LINE_HEIGHT_PADDING, named.geometry.height as int),
            x2: scaled(900_000, named.geometry.width as int),
            y2: scaled(at - header + LINE_HEIGHT_PADDING, named.geometry.height as int),
            width: 500,
        },
    );
}

/// A statistic lies on the page being written, its name and its value side by side, and no
/// page is broken inside a pair: behind the left statistic of a pair the page and the
/// height stay, so that the right one follows on the same line; a page is broken, if at
/// all, behind the right one, and the new page is empty.
pub proof fn lemma_statistic_unsplit(
    before: Layout,
    name: Seq<char>,
    value: Seq<char>,
    counter: int,
    y: int,
)
    requires
        before.wf(),
        before.pages.len() >= 1,
        before.statistic(name, value, counter, y) is Some,
    ensures
        ({
            let (after, next_y) = before.statistic(name, value, counter, y)->Some_0;
            let page = before.current_page;
            let x = if counter % 2 == 0 {
                150_000int
            } else {
                550_000int
            };
            &&& after.pages[page] == before.pages[page].push(
                before.text_object(name + seq![':'], Font::Bold, FONT_SIZE, x, y, Color::black()),
            ).push(
                before.text_object(value, Font::Regular, FONT_SIZE, x + 200_000, y, Color::black()),
            )
            &&& forall|p: int|
                0 <= p < before.pages.len() && p != page ==> #[trigger] after.pages[p]
                    == before.pages[p]
            &&& counter % 2 == 0 ==> after.current_page == page && after.pages.len()
                == before.pages.len() && next_y == y
            &&& after.current_page != page ==> after.current_page == before.pages.len()
                && after.pages.len() == before.pages.len() + 1 && after.pages[after.current_page]
                == Seq::<PlacedObject>::empty() && next_y == TOP_MARGIN
        }),
{
}

} // verus!
