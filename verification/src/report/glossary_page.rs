//! The pages of the glossary: each term with its definition, the definition wrapped.

use crate::report::fonts::Font;
use crate::report::glossary::{glossary_definitions, glossary_terms, Glossary};
use crate::report::layout::Layout;
use crate::report::pdf::{PageManager, PdfError};
use crate::report::text::texts;
use crate::report::units::{FONT_SIZE, LINE_HEIGHT_PADDING};
use crate::report::wrap::{wrapped, Measure};
use vstd::prelude::*;

verus! {

/// The font size of a definition.
pub const DEFINITION_FONT_SIZE: u32 = 10_000;

impl Layout {
    /// What the lines of a definition are measured with and against.
    pub open spec fn definition_measure(self) -> Measure {
        Measure {
            metrics: self.fonts.of(Font::Regular),
            size: DEFINITION_FONT_SIZE,
            page_width: self.geometry.width,
            available: 900_000 - 150_000,
        }
    }

    /// The layout after the lines of a definition from the `from`-th on are written, each
    /// once room has been made for it; with it, the height below the last line.
    pub open spec fn definition_lines(self, lines: Seq<Seq<char>>, from: int, y: int) -> Option<
        (Layout, int),
    >
        decreases lines.len() - from,
    {
        if from < 0 || from >= lines.len() {
            Some((self, y))
        } else {
            match self.written_line(
                lines[from],
                Font::Regular,
                DEFINITION_FONT_SIZE,
                150_000,
                y,
                self.row_height(DEFINITION_FONT_SIZE, LINE_HEIGHT_PADDING as int),
            ) {
                None => None,
                Some((layout, below)) => layout.definition_lines(lines, from + 1, below),
            }
        }
    }

    /// The layout after an entry of the glossary is written at height `y`: the term, once
    /// room has been made for it and one line of its definition, and below it the lines of
    /// the definition, wrapped; with it, the height for the next entry, half a line below
    /// the last line.
    pub open spec fn glossary_entry(self, term: Seq<char>, definition: Seq<char>, y: int)
        -> Option<(Layout, int)> {
        let term_height = self.row_height(FONT_SIZE, LINE_HEIGHT_PADDING as int);
        let height = self.row_height(DEFINITION_FONT_SIZE, LINE_HEIGHT_PADDING as int);
        match self.room_for(y, term_height + height) {
            None => None,
            Some((layout, at)) => {
                let lines = wrapped(definition, self.definition_measure());
                match layout.black_text(term, Font::Bold, FONT_SIZE, 100_000, at).definition_lines(
                    lines,
                    0,
                    at - term_height,
                ) {
                    None => None,
                    Some((done, below)) => Some((done, below - height / 2)),
                }
            },
        }
    }

    /// The layout after the entries from the `from`-th on are written.
    pub open spec fn glossary_entries(
        self,
        terms: Seq<Seq<char>>,
        definitions: Seq<Seq<char>>,
        from: int,
        y: int,
    ) -> Option<(Layout, int)>
        decreases terms.len() - from,
    {
        if from < 0 || from >= terms.len() {
            Some((self, y))
        } else {
            match self.glossary_entry(terms[from], definitions[from], y) {
                None => None,
                Some((layout, next_y)) => layout.glossary_entries(
                    terms,
                    definitions,
                    from + 1,
                    next_y,
                ),
            }
        }
    }

    /// The layout with the section of the glossary added: its header and an entry for each
    /// term. Nothing where the document cannot hold the pages.
    pub open spec fn glossary_page(self) -> Option<Layout> {
        match self.begin_section("Glossary"@) {
            None => None,
            Some(begun) => match begun.glossary_entries(
                glossary_terms(),
                glossary_definitions(),
                0,
                850_000,
            ) {
                None => None,
                Some((done, y)) => Some(done),
            },
        }
    }
}

impl PageManager {
    /// Creates the term glossary pages. A term is written only once there is room for it
    /// and one line of its definition, and each line of a definition only once there is
    /// room for it: else it goes to the top of a new page.
    ///
    /// Fails where the document cannot hold the pages. The section is then recorded if its
    /// first page could be started, and no other record is changed.
    #[verifier::loop_isolation(false)]
    pub fn create_glossary_page(&mut self) -> (done: Result<(), PdfError>)
        requires
            old(self).wf(),
            old(self)@.pages.len() >= 1,
        ensures
            final(self).wf(),
            final(self)@.pages.len() >= old(self)@.pages.len(),
            final(self)@.sections == old(self)@.sections || final(self)@.sections
                == old(self)@.section_recorded("Glossary"@),
            done is Ok ==> final(self)@.sections == old(self)@.section_recorded(
                "Glossary"@,
            ),
            match done {
                Ok(()) => old(self)@.glossary_page() == Some(final(self)@),
                Err(error) => error == PdfError::PageLimit && old(self)@.glossary_page() is None,
            },
    {
        match self.start_section("Glossary") {
            Ok(()) => {},
            Err(error) => {
                return Err(error);
            },
        }
        let ghost begun = self@;
        let ghost terms = glossary_terms();
        let ghost definitions = glossary_definitions();

        let mut y_fraction: i64 = 850_000;
        let term_line_height_fraction: i64 = self.document.geometry.height_fraction(FONT_SIZE)
            + LINE_HEIGHT_PADDING;
        let definition_line_height_fraction: i64 = self.document.geometry.height_fraction(
            DEFINITION_FONT_SIZE,
        ) + LINE_HEIGHT_PADDING;

        let glossary = Glossary::new();
        let term_offset: i64 = 100_000;
        let definition_offset: i64 = 150_000;

        let mut next: usize = 0;
        while next < 15
            invariant
                self.wf(),
                self@.pages.len() >= old(self)@.pages.len(),
                self@.geometry == begun.geometry,
                self@.sections == old(self)@.section_recorded("Glossary"@),
                self@.fonts == begun.fonts,
                next <= 15,
                -30_000_000_000 <= y_fraction <= 900_000,
                self@.glossary_entries(terms, definitions, next as int, y_fraction as int)
                    == begun.glossary_entries(terms, definitions, 0, 850_000),
            decreases 15 - next,
        {
            let term: &str = glossary.terms[next];
            let definition: &str = glossary.definitions[next];
            assert(term@ == terms[next as int] && definition@ == definitions[next as int]) by {
                assert(glossary.terms@[next as int]@ == glossary_terms()[next as int]);
                assert(glossary.definitions@[next as int]@ == glossary_definitions()[next as int]);
            }
            let ghost entry_start = self@;
            let ghost entry_y = y_fraction;
            y_fraction = match self.make_room(
                y_fraction,
                term_line_height_fraction + definition_line_height_fraction,
            ) {
                Ok(y) => y,
                Err(error) => {
                    return Err(error);
                },
            };

            self.add_text(term, Font::Bold, FONT_SIZE, term_offset, y_fraction, None);
            y_fraction -= term_line_height_fraction;

            // The lines of a definition end at nine tenths of the page width.
            let max_width: i64 = 900_000;
            let wrapped_lines = self.wrap_text(
                definition,
                definition_offset,
                max_width,
                Font::Regular,
                DEFINITION_FONT_SIZE,
            );
            let ghost lines = texts(wrapped_lines@);
            let ghost termed = self@;
            let ghost termed_y = y_fraction;
            assert(lines == wrapped(definition@, entry_start.definition_measure()));
            assert(entry_start.glossary_entry(
                terms[next as int],
                definitions[next as int],
                entry_y as int,
            ) == match termed.definition_lines(lines, 0, termed_y as int) {
                None => None::<(Layout, int)>,
                Some((done, below)) => Some((done, below - definition_line_height_fraction / 2)),
            });

            let mut line: usize = 0;
            while line < wrapped_lines.len()
                invariant
                    self.wf(),
                    self@.pages.len() >= old(self)@.pages.len(),
                    self@.geometry == begun.geometry,
                    self@.sections == old(self)@.section_recorded("Glossary"@),
                self@.sections == old(self)@.section_recorded("Glossary"@),
                    self@.fonts == begun.fonts,
                    line <= wrapped_lines.len(),
                    -15_000_000_000 <= y_fraction <= 900_000,
                    self@.definition_lines(lines, line as int, y_fraction as int)
                        == termed.definition_lines(lines, 0, termed_y as int),
                decreases wrapped_lines.len() - line,
            {
                assert(wrapped_lines@[line as int]@ == lines[line as int]);
                y_fraction = match self.write_line(
                    wrapped_lines[line].as_str(),
                    Font::Regular,
                    DEFINITION_FONT_SIZE,
                    definition_offset,
                    y_fraction,
                    definition_line_height_fraction,
                ) {
                    Ok(y) => y,
                    Err(error) => {
                        proof {
                            assert(termed.definition_lines(lines, 0, termed_y as int) is None);
                            assert(entry_start.glossary_entry(
                                terms[next as int],
                                definitions[next as int],
                                entry_y as int,
                            ) is None);
                        }
                        return Err(error);
                    },
                };
                line += 1;
            }

            y_fraction -= definition_line_height_fraction / 2;
            proof {
                assert(entry_start.glossary_entry(
                    terms[next as int],
                    definitions[next as int],
                    entry_y as int,
                ) == Some((self@, y_fraction as int)));
            }
            next += 1;
        }

        Ok(())
    }
}

} // verus!
