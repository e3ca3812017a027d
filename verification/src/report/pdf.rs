//! The page manager: the cursor-aware primitives that place content on the pages of a
//! document, create pages, measure and wrap text, and record where sections start.

use crate::ordered_map::{
    empty_map, entries, entry_list, has_name, index_of_name, lemma_recorded, record,
};
use crate::report::document::{Color, Document, PageObject};
use crate::report::fonts::{measure_width, Font, FontSet, MAX_WIDTH};
use crate::report::layout::{overflows, remaining, Layout};
use crate::report::text::texts;
use crate::report::units::{
    placeable, PageGeometry, BOTTOM_MARGIN, MAX_FRACTION, SECTION_HEADER_FONT_SIZE, TOP_MARGIN,
};
use crate::report::wrap::{wrap, wrapped, Measure};
use indexmap::IndexMap;
use vstd::math::max;
use vstd::prelude::*;
use vstd::string::*;

verus! {

/// The error types for the pdf modules.
#[derive(Clone, Debug, PartialEq, Eq)]
pub enum PdfError {
    /// Occurs on an error of the rendering backend.
    Pdfium(String),
    /// Occurs when a page is asked for and the document holds `MAX_PAGES` pages already.
    PageLimit,
}

impl PdfError {
    /// The text of the error, as it is shown.
    pub open spec fn text(&self) -> Seq<char> {
        match self {
            PdfError::Pdfium(detail) => "Pdf error: "@ + detail@,
            PdfError::PageLimit => "Pdf error: the document cannot hold another page"@,
        }
    }

    /// The text of the error, as it is shown.
    pub fn message(&self) -> (message: String)
        ensures
            message@ == self.text(),
    {
        match self {
            PdfError::Pdfium(detail) => String::from_str("Pdf error: ").concat(detail.as_str()),
            PdfError::PageLimit => String::from_str(
                "Pdf error: the document cannot hold another page",
            ),
        }
    }
}

/// Struct that keeps track of the current page position and number. Allows for manual page
/// management, page break handling, and flow content across multiple pages.
pub struct PageManager {
    /// The document being built.
    pub document: Document,
    /// The current page in the document.
    pub current_page: u32,
    /// The metrics of the regular, the bold and the italic font.
    pub fonts: FontSet,
    /// Section page tracker for table of contents.
    pub section_page_map: IndexMap<String, u32>,
}

impl View for PageManager {
    type V = Layout;

    open spec fn view(&self) -> Layout {
        Layout {
            pages: self.document@,
            current_page: self.current_page as int,
            sections: entries(self.section_page_map),
            geometry: self.document.geometry,
            fonts: self.fonts,
        }
    }
}

impl PageManager {
    /// The manager's layout is well formed.
    pub open spec fn wf(&self) -> bool {
        self@.wf()
    }

    /// Constructor for the PageManager struct: a manager of an empty A4 document.
    pub fn new(fonts: FontSet) -> (created: Result<PageManager, PdfError>)
        ensures
            created is Ok,
            created->Ok_0.wf(),
            created->Ok_0@ == Layout::empty(fonts, created->Ok_0@.geometry),
            created->Ok_0@.geometry.width == 595_276,
            created->Ok_0@.geometry.height == 841_890,
    {
        Ok(PageManager::with_geometry(fonts, PageGeometry::a4()))
    }

    /// A manager of an empty document with pages of the given size.
    pub fn with_geometry(fonts: FontSet, geometry: PageGeometry) -> (manager: PageManager)
        requires
            geometry.wf(),
        ensures
            manager.wf(),
            manager@ == Layout::empty(fonts, geometry),
    {
        PageManager {
            document: Document::new(geometry),
            current_page: 0,
            fonts,
            section_page_map: empty_map(),
        }
    }

    /// The number of pages laid out so far.
    pub fn page_count(&self) -> (count: usize)
        ensures
            count == self@.pages.len(),
    {
        self.document.page_count()
    }

    /// The section records, in the order of recording.
    pub fn sections(&self) -> (list: Vec<(String, u32)>)
        ensures
            list@.len() == self@.sections.len(),
            forall|i: int|
                0 <= i < list@.len() ==> (#[trigger] list@[i]).0@ == self@.sections[i].0
                    && list@[i].1 == self@.sections[i].1,
    {
        entry_list(&self.section_page_map)
    }

    /// Records that the section `name` starts at `page`.
    pub fn record_section(&mut self, name: &str, page: u32)
        requires
            old(self).wf(),
            page < old(self)@.pages.len(),
        ensures
            final(self).wf(),
            final(self)@.pages.len() >= old(self)@.pages.len(),
            final(self)@ == old(self)@.section(name@, page),
    {
        record(&mut self.section_page_map, name, page);
        proof {
            lemma_recorded(old(self)@.sections, name@, page);
            let after = self@.sections;
            let made = if has_name(old(self)@.sections, name@) {
                index_of_name(old(self)@.sections, name@)
            } else {
                old(self)@.sections.len() as int
            };
            assert forall|i: int| 0 <= i < after.len() implies (#[trigger] after[i]).1
                < self@.pages.len() by {
                if i != made {
                    assert(after[i] == old(self)@.sections[i]);
                }
            }
        }
    }

    /// Helper function to add text to a page: one line, anchored at the given fractions of
    /// the page; black where no colour is given.
    pub fn add_text(
        &mut self,
        text: &str,
        font: Font,
        font_size: u32,
        x_fraction: i64,
        y_fraction: i64,
        color: Option<Color>,
    )
        requires
            old(self).wf(),
            old(self)@.pages.len() > 0,
            placeable(x_fraction as int),
            placeable(y_fraction as int),
        ensures
            final(self).wf(),
            final(self)@.pages.len() >= old(self)@.pages.len(),
            final(self)@ == old(self)@.text(
                text@,
                font,
                font_size,
                x_fraction as int,
                y_fraction as int,
                match color {
                    Some(given) => given,
                    None => Color::black(),
                },
            ),
    {
        let color = match color {
            Some(given) => given,
            None => Color::new(0, 0, 0, 255),
        };
        let (x, y) = self.document.geometry.to_absolute(x_fraction, y_fraction);
        let object = PageObject::Text {
            text: String::from_str(text),
            font,
            size: font_size,
            x,
            y,
            color,
        };
        self.document.place(self.current_page as usize, object);
    }

    /// Creates a new page at the end of the document, which becomes the current page.
    pub fn new_page(&mut self) -> (done: Result<(), PdfError>)
        requires
            old(self).wf(),
        ensures
            final(self).wf(),
            final(self)@.pages.len() >= old(self)@.pages.len(),
            match done {
                Ok(()) => old(self)@.new_page() == Some(final(self)@),
                Err(error) => error == PdfError::PageLimit && old(self)@.new_page() is None
                    && final(self)@ == old(self)@,
            },
    {
        let index = self.document.page_count();
        if self.document.insert_page(index) {
            self.current_page = index as u32;
            Ok(())
        } else {
            Err(PdfError::PageLimit)
        }
    }

    /// Creates a new page at a specified index in the document, which becomes the current
    /// page. Every page at or after the index moves up by one.
    pub fn insert_page_at(&mut self, index: u16) -> (done: Result<(), PdfError>)
        requires
            old(self).wf(),
            index <= old(self)@.pages.len(),
        ensures
            final(self).wf(),
            final(self)@.pages.len() >= old(self)@.pages.len(),
            match done {
                Ok(()) => old(self)@.page_at(index as int) == Some(final(self)@),
                Err(error) => error == PdfError::PageLimit && old(self)@.page_at(index as int)
                    is None && final(self)@ == old(self)@,
            },
    {
        if self.document.insert_page(index as usize) {
            self.current_page = index as u32;
            Ok(())
        } else {
            Err(PdfError::PageLimit)
        }
    }

    /// Adds a straight black line between two points given in page fractions.
    pub fn add_line(&mut self, x1: i64, y1: i64, x2: i64, y2: i64, width: u32)
        requires
            old(self).wf(),
            old(self)@.pages.len() > 0,
            placeable(x1 as int),
            placeable(y1 as int),
            placeable(x2 as int),
            placeable(y2 as int),
        ensures
            final(self).wf(),
            final(self)@.pages.len() >= old(self)@.pages.len(),
            final(self)@ == old(self)@.line(x1 as int, y1 as int, x2 as int, y2 as int, width),
    {
        let (from_x, from_y) = self.document.geometry.to_absolute(x1, y1);
        let (to_x, to_y) = self.document.geometry.to_absolute(x2, y2);
        let object = PageObject::Line { x1: from_x, y1: from_y, x2: to_x, y2: to_y, width };
        self.document.place(self.current_page as usize, object);
    }

    /// Helper function to add a filled rectangle between two corners given in page
    /// fractions.
    pub fn add_rectangle(&mut self, x1: i64, y1: i64, x2: i64, y2: i64, color: Color)
        requires
            old(self).wf(),
            old(self)@.pages.len() > 0,
            placeable(x1 as int),
            placeable(y1 as int),
            placeable(x2 as int),
            placeable(y2 as int),
        ensures
            final(self).wf(),
            final(self)@.pages.len() >= old(self)@.pages.len(),
            final(self)@ == old(self)@.rectangle(x1 as int, y1 as int, x2 as int, y2 as int, color),
    {
        let (from_x, from_y) = self.document.geometry.to_absolute(x1, y1);
        let (to_x, to_y) = self.document.geometry.to_absolute(x2, y2);
        let object = PageObject::Rectangle { x1: from_x, y1: from_y, x2: to_x, y2: to_y, color };
        self.document.place(self.current_page as usize, object);
    }

    /// Embeds the raster image at `path`, its lower left corner and its extents given in
    /// page fractions.
    pub fn add_image(&mut self, path: &str, x: i64, y: i64, width: i64, height: i64)
        requires
            old(self).wf(),
            old(self)@.pages.len() > 0,
            placeable(x as int),
            placeable(y as int),
            placeable(width as int),
            placeable(height as int),
        ensures
            final(self).wf(),
            final(self)@.pages.len() >= old(self)@.pages.len(),
            final(self)@ == old(self)@.image(
                path@,
                x as int,
                y as int,
                width as int,
                height as int,
            ),
    {
        let (at_x, at_y) = self.document.geometry.to_absolute(x, y);
        let (wide, high) = self.document.geometry.to_absolute(width, height);
        let object = PageObject::Image {
            path: String::from_str(path),
            x: at_x,
            y: at_y,
            width: wide,
            height: high,
        };
        self.document.place(self.current_page as usize, object);
    }

    /// Based on the Y coordinate page fraction and the content height fraction determine
    /// whether a new page is needed.
    pub fn need_new_page(&self, y_fraction: i64, content_height_fraction: i64) -> (needed: bool)
        ensures
            needed == overflows(y_fraction as int, content_height_fraction as int),
    {
        (y_fraction as i128) - (content_height_fraction as i128) < (BOTTOM_MARGIN as i128)
    }

    /// The space that is left between the height `y_fraction` and the bottom margin.
    pub fn remaining_space(&self, y_fraction: i64) -> (space: i64)
        requires
            placeable(y_fraction as int),
        ensures
            space == remaining(y_fraction as int),
    {
        y_fraction - BOTTOM_MARGIN
    }

    /// Makes room for content of the given height at height `y_fraction`: where it would
    /// cross the bottom margin, a new page is started before anything of it is written, and
    /// writing resumes at the top margin. Returns the height to write at.
    pub fn make_room(&mut self, y_fraction: i64, content_height_fraction: i64) -> (room: Result<
        i64,
        PdfError,
    >)
        requires
            old(self).wf(),
        ensures
            final(self).wf(),
            final(self)@.pages.len() >= old(self)@.pages.len(),
            match room {
                Ok(y) => old(self)@.room_for(
                    y_fraction as int,
                    content_height_fraction as int,
                ) == Some((final(self)@, y as int)) && (y == TOP_MARGIN || (y == y_fraction
                    && remaining(y as int) >= content_height_fraction)),
                Err(error) => error == PdfError::PageLimit && old(self)@.room_for(
                    y_fraction as int,
                    content_height_fraction as int,
                ) is None && final(self)@ == old(self)@,
            },
    {
        if self.need_new_page(y_fraction, content_height_fraction) {
            match self.new_page() {
                Ok(()) => Ok(TOP_MARGIN),
                Err(error) => Err(error),
            }
        } else {
            Ok(y_fraction)
        }
    }

    /// Adds a line of text and advances the cursor: the line is written at height
    /// `y_fraction` once room has been made for it, and the height for the next line, the
    /// height of a line below, is returned. That height lies above the bottom margin, unless
    /// a page has just been started for the line.
    pub fn write_line(
        &mut self,
        text: &str,
        font: Font,
        font_size: u32,
        x_fraction: i64,
        y_fraction: i64,
        line_height_fraction: i64,
    ) -> (next: Result<i64, PdfError>)
        requires
            old(self).wf(),
            old(self)@.pages.len() >= 1,
            placeable(x_fraction as int),
            placeable(y_fraction as int),
            0 <= line_height_fraction <= MAX_FRACTION,
        ensures
            final(self).wf(),
            final(self)@.pages.len() >= old(self)@.pages.len(),
            match next {
                Ok(y) => old(self)@.written_line(
                    text@,
                    font,
                    font_size,
                    x_fraction as int,
                    y_fraction as int,
                    line_height_fraction as int,
                ) == Some((final(self)@, y as int)) && (y >= BOTTOM_MARGIN || y == TOP_MARGIN
                    - line_height_fraction) && y <= max(y_fraction as int, TOP_MARGIN as int),
                Err(error) => error == PdfError::PageLimit && old(self)@.written_line(
                    text@,
                    font,
                    font_size,
                    x_fraction as int,
                    y_fraction as int,
                    line_height_fraction as int,
                ) is None && final(self)@ == old(self)@,
            },
    {
        let at = match self.make_room(y_fraction, line_height_fraction) {
            Ok(y) => y,
            Err(error) => {
                return Err(error);
            },
        };
        self.add_text(text, font, font_size, x_fraction, at, None);
        Ok(at - line_height_fraction)
    }

    /// Calculates the width of a text set in `font` at `font_size`. Widths are returned as
    /// a fraction of the page width.
    pub fn get_text_width(&self, text: &str, font: Font, font_size: u32) -> (width: i64)
        requires
            self.wf(),
        ensures
            width == self@.width_of(text@, font, font_size),
            0 <= width <= MAX_WIDTH,
    {
        measure_width(self.fonts.metrics(font), text, font_size, self.document.geometry.width)
    }

    /// Wrap text lines to prevent page overflows: the lines start at `offset` and end no
    /// later than `max_width`, as far as single words allow.
    pub fn wrap_text(&self, text: &str, offset: i64, max_width: i64, font: Font, font_size: u32)
        -> (lines: Vec<String>)
        requires
            self.wf(),
            placeable(offset as int),
            placeable(max_width as int),
        ensures
            texts(lines@) == wrapped(
                text@,
                Measure {
                    metrics: self@.fonts.of(font),
                    size: font_size,
                    page_width: self@.geometry.width,
                    available: max_width - offset,
                },
            ),
    {
        let available_width: i64 = max_width - offset;
        wrap(
            text,
            available_width,
            self.fonts.metrics(font),
            font_size,
            self.document.geometry.width,
        )
    }

    /// Starts a section on a new page: records the section under `name` with the index of
    /// the new page, and writes `name` at the head of the page.
    pub fn start_section(&mut self, name: &str) -> (done: Result<(), PdfError>)
        requires
            old(self).wf(),
            old(self)@.pages.len() >= 1,
        ensures
            final(self).wf(),
            final(self)@.pages.len() >= old(self)@.pages.len(),
            match done {
                Ok(()) => old(self)@.begin_section(name@) == Some(final(self)@)
                    && final(self)@.sections == old(self)@.section_recorded(name@),
                Err(error) => error == PdfError::PageLimit && old(self)@.begin_section(name@)
                    is None && final(self)@ == old(self)@,
            },
    {
        match self.new_page() {
            Ok(()) => {},
            Err(error) => {
                return Err(error);
            },
        }
        self.record_section(name, self.current_page);
        self.add_text(name, Font::Bold, SECTION_HEADER_FONT_SIZE, 100_000, 900_000, None);
        Ok(())
    }
}

} // verus!
