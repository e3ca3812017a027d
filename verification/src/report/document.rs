//! The document: an ordered sequence of pages, each a list of placed objects.

use crate::report::fonts::Font;
use crate::report::units::PageGeometry;
use vstd::prelude::*;

verus! {

/// The most pages that a document can hold: page indices are sixteen bits wide.
pub const MAX_PAGES: usize = 65_535;

/// A colour, as red, green, blue and opacity.
#[derive(Clone, Copy, Debug, PartialEq, Eq, Structural)]
pub struct Color {
    /// The red part.
    pub red: u8,
    /// The green part.
    pub green: u8,
    /// The blue part.
    pub blue: u8,
    /// The opacity; 255 is opaque.
    pub alpha: u8,
}

impl Color {
    /// Opaque black.
    pub open spec fn black() -> Color {
        Color { red: 0, green: 0, blue: 0, alpha: 255 }
    }

    /// The light grey behind every other row of a table.
    pub open spec fn stripe() -> Color {
        Color { red: 240, green: 240, blue: 240, alpha: 255 }
    }

    /// A colour from its four parts.
    pub fn new(red: u8, green: u8, blue: u8, alpha: u8) -> (color: Color)
        ensures
            color == (Color { red, green, blue, alpha }),
    {
        Color { red, green, blue, alpha }
    }
}

/// Something placed on a page. Positions and extents are absolute, in thousandths of a
/// point from the left and bottom edges; font sizes and line widths are in the same unit.
#[derive(Clone, Debug, PartialEq, Eq)]
pub enum PageObject {
    /// One line of text, anchored at its left end.
    Text { text: String, font: Font, size: u32, x: i64, y: i64, color: Color },
    /// A straight black line between two points.
    Line { x1: i64, y1: i64, x2: i64, y2: i64, width: u32 },
    /// A filled rectangle between two opposite corners.
    Rectangle { x1: i64, y1: i64, x2: i64, y2: i64, color: Color },
    /// A raster image read from `path`, anchored at its lower left corner.
    Image { path: String, x: i64, y: i64, width: i64, height: i64 },
}

/// What a `PageObject` stands for.
pub enum PlacedObject {
    /// One line of text, anchored at its left end.
    Text { text: Seq<char>, font: Font, size: u32, x: int, y: int, color: Color },
    /// A straight black line between two points.
    Line { x1: int, y1: int, x2: int, y2: int, width: u32 },
    /// A filled rectangle between two opposite corners.
    Rectangle { x1: int, y1: int, x2: int, y2: int, color: Color },
    /// A raster image read from `path`, anchored at its lower left corner.
    Image { path: Seq<char>, x: int, y: int, width: int, height: int },
}

impl View for PageObject {
    type V = PlacedObject;

    open spec fn view(&self) -> PlacedObject {
        match *self {
            PageObject::Text { text, font, size, x, y, color } => PlacedObject::Text {
                text: text@,
                font,
                size,
                x: x as int,
                y: y as int,
                color,
            },
            PageObject::Line { x1, y1, x2, y2, width } => PlacedObject::Line {
                x1: x1 as int,
                y1: y1 as int,
                x2: x2 as int,
                y2: y2 as int,
                width,
            },
            PageObject::Rectangle { x1, y1, x2, y2, color } => PlacedObject::Rectangle {
                x1: x1 as int,
                y1: y1 as int,
                x2: x2 as int,
                y2: y2 as int,
                color,
            },
            PageObject::Image { path, x, y, width, height } => PlacedObject::Image {
                path: path@,
                x: x as int,
                y: y as int,
                width: width as int,
                height: height as int,
            },
        }
    }
}

/// One page: its objects in the order in which they were placed.
#[derive(Clone, Debug, PartialEq, Eq)]
pub struct Page {
    /// The objects on the page.
    pub objects: Vec<PageObject>,
}

impl View for Page {
    type V = Seq<PlacedObject>;

    open spec fn view(&self) -> Seq<PlacedObject> {
        Seq::new(self.objects@.len(), |i: int| self.objects@[i]@)
    }
}

/// A document: pages of one size.
#[derive(Clone, Debug, PartialEq, Eq)]
pub struct Document {
    /// The pages, in order.
    pub pages: Vec<Page>,
    /// The size of every page.
    pub geometry: PageGeometry,
}

impl View for Document {
    type V = Seq<Seq<PlacedObject>>;

    open spec fn view(&self) -> Seq<Seq<PlacedObject>> {
        Seq::new(self.pages@.len(), |i: int| self.pages@[i]@)
    }
}

impl Document {
    /// A document holds no more than `MAX_PAGES` pages, and its pages have a size.
    pub open spec fn wf(&self) -> bool {
        self.pages@.len() <= MAX_PAGES && self.geometry.wf()
    }

    /// A document without pages.
    pub fn new(geometry: PageGeometry) -> (document: Document)
        requires
            geometry.wf(),
        ensures
            document.wf(),
            document@ == Seq::<Seq<PlacedObject>>::empty(),
            document.geometry == geometry,
    {
        let document = Document { pages: Vec::new(), geometry };
        assert(document@ =~= Seq::<Seq<PlacedObject>>::empty());
        document
    }

    /// The number of pages.
    pub fn page_count(&self) -> (count: usize)
        ensures
            count == self@.len(),
    {
        self.pages.len()
    }

    /// Inserts an empty page at `index`; every page at or after `index` moves up by one.
    /// Fails, and changes nothing, where the document is full.
    pub fn insert_page(&mut self, index: usize) -> (done: bool)
        requires
            old(self).wf(),
            index <= old(self)@.len(),
        ensures
            final(self).wf(),
            final(self).geometry == old(self).geometry,
            done == (old(self)@.len() < MAX_PAGES),
            done ==> final(self)@ == old(self)@.insert(index as int, Seq::empty()),
            !done ==> final(self)@ == old(self)@,
    {
        if self.pages.len() >= MAX_PAGES {
            return false;
        }
        self.pages.insert(index, Page { objects: Vec::new() });
        proof {
            assert(self.pages@[index as int]@ =~= Seq::<PlacedObject>::empty());
            assert(self@ =~= old(self)@.insert(index as int, Seq::empty()));
        }
        true
    }

    /// Places `object` on the page at `index`, above what is there.
    pub fn place(&mut self, index: usize, object: PageObject)
        requires
            index < old(self)@.len(),
        ensures
            final(self).geometry == old(self).geometry,
            final(self)@ == old(self)@.update(index as int, old(self)@[index as int].push(object@)),
    {
        self.pages[index].objects.push(object);
        proof {
            assert(self.pages@[index as int]@ =~= old(self)@[index as int].push(object@));
            assert(self@ =~= old(self)@.update(
                index as int,
                old(self)@[index as int].push(object@),
            ));
        }
    }
}

} // verus!
