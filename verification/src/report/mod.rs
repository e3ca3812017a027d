//! The report: a paginated document laid out from the results of the analysis.
//!
//! - `units`, `fonts`, `text`, `wrap` and `numerals`: lengths and positions, the measurement
//!   of text, words and lines, and the rendering of numbers.
//! - `document`: pages and the objects placed on them.
//! - `layout`: what a page manager stands for, and the operations of the layout stated on it.
//! - `pdf`: the page manager and its primitives.
//! - `title_page`, `data_types_page`, `descriptive_page`, `missing_page`, `glossary_page`:
//!   the sections of the report.
//! - `toc`: the table of contents and the folios.
//! - `assembly`: the report as a whole.
//! - `row_laws`, `toc_laws`, `assembly_laws`: what holds of every layout.

pub mod assembly;
pub mod assembly_laws;
pub mod data_types_page;
pub mod descriptive_page;
pub mod document;
pub mod fonts;
pub mod glossary;
pub mod glossary_page;
pub mod layout;
pub mod missing_page;
pub mod numerals;
pub mod pdf;
pub mod row_laws;
pub mod text;
pub mod title_page;
pub mod toc;
pub mod toc_laws;
pub mod units;
pub mod wrap;
