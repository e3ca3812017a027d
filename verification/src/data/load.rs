//! # Load Module
//!
//! This module names the reader that a file is loaded with, by the extension of its path.

use crate::data::base::{format_of, same_text, FileFormat};
use vstd::prelude::*;
use vstd::string::*;

verus! {

/// The error types for the data load module.
#[derive(Clone, Debug, PartialEq, Eq)]
pub enum LoadError {
    /// Occurs when an I/O operation fails.
    Io(String),
    /// Occurs when the query engine fails to complete an operation.
    Polars(String),
    /// Occurs when an unsupported file format is passed.
    UnsupportedFormat(String),
    /// Occurs when the file extension cannot be parsed.
    FileExtension(String),
}

impl LoadError {
    /// The text of the error, as it is shown.
    pub open spec fn text(&self) -> Seq<char> {
        match self {
            LoadError::Io(detail) => "IO error: "@ + detail@,
            LoadError::Polars(detail) => "Polars error: "@ + detail@,
            LoadError::UnsupportedFormat(detail) => "Unsupported file format: "@ + detail@,
            LoadError::FileExtension(detail) => {
                "Error in parsing file extension, "@ + detail@ + ", check file path"@
            },
        }
    }

    /// The text of the error, as it is shown.
    pub fn message(&self) -> (message: String)
        ensures
            message@ == self.text(),
    {
        match self {
            LoadError::Io(detail) => String::from_str("IO error: ").concat(detail.as_str()),
            LoadError::Polars(detail) => String::from_str("Polars error: ").concat(detail.as_str()),
            LoadError::UnsupportedFormat(detail) => String::from_str(
                "Unsupported file format: ",
            ).concat(detail.as_str()),
            LoadError::FileExtension(detail) => String::from_str(
                "Error in parsing file extension, ",
            ).concat(detail.as_str())
                .concat(", check file path"),
        }
    }
}

/// The reader that a file is loaded with, by the extension of its path: `csv`, `tsv` or
/// `parquet`. Fails with `FileExtension`, which then names the extension, for any other
/// extension, and with `UnsupportedFormat` for a path without an extension.
pub fn reader_for(extension: Option<&str>) -> (reader: Result<FileFormat, LoadError>)
    ensures
        match reader {
            Ok(format) => extension is Some && format_of(extension->Some_0@)
                == Some(format),
            Err(LoadError::FileExtension(text)) => extension is Some
                && format_of(extension->Some_0@) is None && text@
                == extension->Some_0@,
            Err(LoadError::UnsupportedFormat(text)) => extension is None && text@
                == "No file extension"@,
            Err(_) => false,
        },
{
    match extension {
        Some(ext) => {
            if same_text(ext, "csv") {
                Ok(FileFormat::Csv)
            } else if same_text(ext, "tsv") {
                Ok(FileFormat::Tsv)
            } else if same_text(ext, "parquet") {
                Ok(FileFormat::Parquet)
            } else {
                Err(LoadError::FileExtension(ext.to_owned()))
            }
        },
        None => Err(LoadError::UnsupportedFormat("No file extension".to_owned())),
    }
}

} // verus!
