//! What a page manager stands for: the pages laid out so far, the page being written, and
//! the sections recorded, with the operations of the layout stated on them.

use crate::ordered_map::{distinct_names, recorded, Records};
use crate::report::document::{Color, PlacedObject, MAX_PAGES};
use crate::report::fonts::{text_width, Font, FontSet};
use crate::report::units::{
    fraction_of, scaled, PageGeometry, BOTTOM_MARGIN, FONT_SIZE, SECTION_HEADER_FONT_SIZE,
    TOP_MARGIN,
};
use vstd::prelude::*;

verus! {

/// A row of `count` full stops.
pub open spec fn dots(count: nat) -> Seq<char> {
    Seq::new(count, |i: int| '.')
}

/// The space that is left between the height `y` and the bottom margin.
pub open spec fn remaining(y: int) -> int {
    y - BOTTOM_MARGIN
}

/// Whether content of the given height, placed at height `y`, would cross the bottom margin:
/// whether less space than its height is left.
pub open spec fn overflows(y: int, height: int) -> bool {
    remaining(y) < height
}

/// The state of a layout.
pub struct Layout {
    /// The pages, each with its objects in the order of placement.
    pub pages: Seq<Seq<PlacedObject>>,
    /// The index of the page being written.
    pub current_page: int,
    /// The section records.
    pub sections: Records,
    /// The size of the pages.
    pub geometry: PageGeometry,
    /// The metrics of the fonts.
    pub fonts: FontSet,
}

impl Layout {
    /// The page being written is a page of the document, every recorded page is one too, no
    /// two records share a name, and the document is within its limits.
    pub open spec fn wf(self) -> bool {
        &&& self.geometry.wf()
        &&& self.pages.len() <= MAX_PAGES
        &&& 0 <= self.current_page
        &&& self.pages.len() > 0 ==> self.current_page < self.pages.len()
        &&& self.pages.len() == 0 ==> self.current_page == 0
        &&& distinct_names(self.sections)
        &&& forall|i: int|
            0 <= i < self.sections.len() ==> (#[trigger] self.sections[i]).1 < self.pages.len()
    }

    /// A layout without pages or records.
    pub open spec fn empty(fonts: FontSet, geometry: PageGeometry) -> Layout {
        Layout {
            pages: Seq::empty(),
            current_page: 0,
            sections: Seq::empty(),
            geometry,
            fonts,
        }
    }

    /// The width of `text` set in `font` at `size`, as a fraction of the page width.
    pub open spec fn width_of(self, text: Seq<char>, font: Font, size: u32) -> int {
        text_width(self.fonts.of(font), text, size, self.geometry.width)
    }

    /// The layout with `object` placed last on `page`.
    pub open spec fn placed_on(self, page: int, object: PlacedObject) -> Layout {
        Layout { pages: self.pages.update(page, self.pages[page].push(object)), ..self }
    }

    /// The layout with `object` placed last on the page being written.
    pub open spec fn placed(self, object: PlacedObject) -> Layout {
        self.placed_on(self.current_page, object)
    }

    /// The text object that `text` becomes when it is placed at the given fractions.
    pub open spec fn text_object(
        self,
        text: Seq<char>,
        font: Font,
        size: u32,
        x: int,
        y: int,
        color: Color,
    ) -> PlacedObject {
        PlacedObject::Text {
            text,
            font,
            size,
            x: scaled(x, self.geometry.width as int),
            y: scaled(y, self.geometry.height as int),
            color,
        }
    }

    /// The layout with a line of text placed at the given fractions of the page.
    pub open spec fn text(
        self,
        text: Seq<char>,
        font: Font,
        size: u32,
        x: int,
        y: int,
        color: Color,
    ) -> Layout {
        self.placed(self.text_object(text, font, size, x, y, color))
    }

    /// The layout with a line of black text placed at the given fractions of the page.
    pub open spec fn black_text(self, text: Seq<char>, font: Font, size: u32, x: int, y: int)
        -> Layout {
        self.text(text, font, size, x, y, Color::black())
    }

    /// The layout with a straight line drawn between two points given in page fractions.
    pub open spec fn line(self, x1: int, y1: int, x2: int, y2: int, width: u32) -> Layout {
        self.placed(
            PlacedObject::Line {
                x1: scaled(x1, self.geometry.width as int),
                y1: scaled(y1, self.geometry.height as int),
                x2: scaled(x2, self.geometry.width as int),
                y2: scaled(y2, self.geometry.height as int),
                width,
            },
        )
    }

    /// The layout with a rectangle filled between two corners given in page fractions.
    pub open spec fn rectangle(self, x1: int, y1: int, x2: int, y2: int, color: Color)
        -> Layout {
        self.placed(
            PlacedObject::Rectangle {
                x1: scaled(x1, self.geometry.width as int),
                y1: scaled(y1, self.geometry.height as int),
                x2: scaled(x2, self.geometry.width as int),
                y2: scaled(y2, self.geometry.height as int),
                color,
            },
        )
    }

    /// The layout with an image placed at a corner and with extents given in page fractions.
    pub open spec fn image(self, path: Seq<char>, x: int, y: int, width: int, height: int)
        -> Layout {
        self.placed(
            PlacedObject::Image {
                path,
                x: scaled(x, self.geometry.width as int),
                y: scaled(y, self.geometry.height as int),
                width: scaled(width, self.geometry.width as int),
                height: scaled(height, self.geometry.height as int),
            },
        )
    }

    /// The layout with an empty page inserted at `index`, which becomes the page being
    /// written; nothing where the document is full.
    pub open spec fn page_at(self, index: int) -> Option<Layout> {
        if self.pages.len() < MAX_PAGES {
            Some(
                Layout {
                    pages: self.pages.insert(index, Seq::empty()),
                    current_page: index,
                    ..self
                },
            )
        } else {
            None
        }
    }

    /// The layout with an empty page added at the end, which becomes the page being
    /// written; nothing where the document is full.
    pub open spec fn new_page(self) -> Option<Layout> {
        self.page_at(self.pages.len() as int)
    }

    /// The layout with `page` recorded for the section `name`.
    pub open spec fn section(self, name: Seq<char>, page: u32) -> Layout {
        Layout { sections: recorded(self.sections, name, page), ..self }
    }

    /// The records once the section `name` is recorded with the index of the page behind
    /// the last.
    pub open spec fn section_recorded(self, name: Seq<char>) -> Records {
        recorded(self.sections, name, self.pages.len() as u32)
    }

    /// The layout with a section started on a new page: the section is recorded under
    /// `name` with the index of the new page, and `name` heads the page. Nothing where the
    /// document is full.
    pub open spec fn begin_section(self, name: Seq<char>) -> Option<Layout> {
        match self.new_page() {
            None => None,
            Some(opened) => Some(
                opened.section(name, opened.current_page as u32).black_text(
                    name,
                    Font::Bold,
                    SECTION_HEADER_FONT_SIZE,
                    100_000,
                    900_000,
                ),
            ),
        }
    }

    /// The height of a line of text of the given font size with the given padding, as a
    /// fraction of the page height.
    pub open spec fn row_height(self, size: u32, padding: int) -> int {
        fraction_of(size as int, self.geometry.height as int) + padding
    }

    /// The layout, and the height to write at, once room has been made for content of the
    /// given height at height `y`: where the content would cross the bottom margin, a new
    /// page is started and writing resumes at its top margin.
    pub open spec fn room_for(self, y: int, height: int) -> Option<(Layout, int)> {
        if overflows(y, height) {
            match self.new_page() {
                Some(next) => Some((next, TOP_MARGIN as int)),
                None => None,
            }
        } else {
            Some((self, y))
        }
    }

    /// The layout after a line of text is written at height `y`, once room has been made
    /// for it; with it, the height for the next line, the height of a line below.
    pub open spec fn written_line(
        self,
        text: Seq<char>,
        font: Font,
        size: u32,
        x: int,
        y: int,
        height: int,
    ) -> Option<(Layout, int)> {
        match self.room_for(y, height) {
            None => None,
            Some((layout, at)) => Some((layout.black_text(text, font, size, x, at), at - height)),
        }
    }

    /// Whether a leader of `count` full stops is as wide as `gap`.
    pub open spec fn leader_fills(self, count: nat, gap: int) -> bool {
        self.width_of(dots(count), Font::Regular, FONT_SIZE) >= gap
    }

    /// The number of full stops in the leader that fills `gap`, searched from `count` up.
    pub open spec fn leader_from(self, count: nat, gap: int) -> nat
        decreases gap * self.geometry.width - count,
    {
        if self.leader_fills(count, gap) || count >= gap * self.geometry.width {
            count
        } else {
            self.leader_from(count + 1, gap)
        }
    }

    /// The number of full stops in the leader that fills `gap`: the least that is as wide
    /// as the gap. A face whose full stop has no width draws no leader.
    pub open spec fn leader_count(self, gap: int) -> nat {
        if self.fonts.regular.glyph_width('.') == 0 {
            0
        } else {
            self.leader_from(0, gap)
        }
    }

    /// The layout with the dotted leader placed that fills the gap from `start_x` to
    /// `end_x` at height `y`.
    pub open spec fn dotted_line(self, start_x: int, end_x: int, y: int) -> Layout {
        self.black_text(
            dots(self.leader_count(end_x - start_x)),
            Font::Regular,
            FONT_SIZE,
            start_x,
            y,
        )
    }
}

} // verus!
