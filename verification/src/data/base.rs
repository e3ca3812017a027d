//! # Base Data Module
//!
//! This module holds what is known of a dataset once it has been read and analysed: its
//! title, the types of its columns, and the analysis results. It also names the file
//! formats that a dataset can be read from.

use crate::LeadsError;
use crate::data::descriptive::DescriptiveAnalysis;
use crate::data::missing_values::MissingValueAnalysis;
use crate::report::glossary::DataType;
use vstd::prelude::*;
use vstd::string::*;

verus! {

/// The error types for the base data module.
#[derive(Clone, Debug, PartialEq, Eq)]
pub enum DataError {
    /// Occurs when an I/O operation fails.
    Io(String),
    /// Occurs when the query engine fails to complete an operation.
    Polars(String),
    /// Occurs when the query engine fails to lazy infer the schema.
    PolarsSchema(String),
    /// Occurs when an unsupported file format is passed.
    UnsupportedFormat(String),
    /// Occurs when the file extension cannot be parsed.
    FileExtension(String),
    /// Occurs when the file name cannot be parsed.
    FilenameParse(String),
    /// Occurs when duplicate column headers are detected.
    DuplicateHeader(String),
}

/// The file formats that a dataset can be read from.
#[derive(Clone, Copy, Debug, PartialEq, Eq, Structural)]
pub enum FileFormat {
    /// Comma-separated values.
    Csv,
    /// Tab-separated values.
    Tsv,
    /// Apache Parquet.
    Parquet,
}

/// The format that a file with the given extension is read as.
pub open spec fn format_of(extension: Seq<char>) -> Option<FileFormat> {
    if extension == "csv"@ {
        Some(FileFormat::Csv)
    } else if extension == "tsv"@ {
        Some(FileFormat::Tsv)
    } else if extension == "parquet"@ {
        Some(FileFormat::Parquet)
    } else {
        None
    }
}

/// Whether two texts are the same.
pub fn same_text(a: &str, b: &str) -> (same: bool)
    ensures
        same == (a@ == b@),
{
    a.to_owned() == b.to_owned()
}

/// The format that a file is read as, by the extension of its path. Fails with
/// `FilenameParse` for a path without an extension, and with `UnsupportedFormat`, which
/// then names the extension, for any other extension than `csv`, `tsv` and `parquet`.
pub fn file_format(extension: Option<&str>) -> (format: Result<FileFormat, DataError>)
    ensures
        match format {
            Ok(found) => extension is Some && format_of(extension->Some_0@) == Some(found),
            Err(DataError::FilenameParse(text)) => extension is None && text@
                == "No file extension found"@,
            Err(DataError::UnsupportedFormat(text)) => extension is Some && format_of(
                extension->Some_0@,
            ) is None && text@ == "Unsupported file format: "@ + extension->Some_0@,
            Err(_) => false,
        },
{
    match extension {
        None => Err(DataError::FilenameParse("No file extension found".to_owned())),
        Some(ext) => {
            if same_text(ext, "csv") {
                Ok(FileFormat::Csv)
            } else if same_text(ext, "tsv") {
                Ok(FileFormat::Tsv)
            } else if same_text(ext, "parquet") {
                Ok(FileFormat::Parquet)
            } else {
                Err(
                    DataError::UnsupportedFormat(
                        String::from_str("Unsupported file format: ").concat(ext),
                    ),
                )
            }
        },
    }
}

/// The name of the file that the report on the dataset `title` is saved to.
pub open spec fn report_name(title: Seq<char>) -> Seq<char> {
    Seq::new(
        title.len(),
        |i: int|
            if title[i] == ' ' {
                '_'
            } else {
                title[i]
            },
    ) + "_report.pdf"@
}

/// The name of the file that the report on the dataset `title` is saved to: the title, with
/// an underscore for each space, and `_report.pdf` behind it.
#[verifier::loop_isolation(false)]
pub fn report_file_name(title: &str) -> (name: String)
    ensures
        name@ == report_name(title@),
{
    let length: usize = title.unicode_len();
    let mut name = String::new();
    let mut at: usize = 0;
    let ghost replaced = Seq::new(
        title@.len(),
        |i: int|
            if title@[i] == ' ' {
                '_'
            } else {
                title@[i]
            },
    );
    let chars = title.chars();
    proof {
        assert(name@ =~= replaced.take(0));
    }
    for c in iter: chars
        invariant
            iter.seq() == title@,
            title@.len() == length,
            at == iter.index(),
            name@ == replaced.take(at as int),
    {
        proof {
            assert(title@[at as int] == c);
            assert(at < length);
        }
        if c == ' ' {
            proof {
                reveal_strlit("_");
                assert(name@ + "_"@ =~= replaced.take(at + 1));
            }
            name.append("_");
        } else {
            proof {
                assert(name@ + title@.subrange(at as int, at + 1) =~= replaced.take(at + 1));
            }
            name.append(title.substring_char(at, at + 1));
        }
        at = at + 1;
    }
    proof {
        assert(replaced.take(at as int) =~= replaced);
    }
    name.append("_report.pdf");
    name
}

/// A column of the dataset: its name and its type.
#[derive(Clone, Debug, PartialEq, Eq)]
pub struct ColumnType {
    /// The name of the column.
    pub name: String,
    /// The type of its values.
    pub data_type: DataType,
    /// The type as it is written in the overview.
    pub type_text: String,
}

/// Whether the column at `at` bears the name of a column before it.
pub open spec fn repeats(columns: Seq<ColumnType>, at: int) -> bool {
    exists|i: int| 0 <= i < at && (#[trigger] columns[i]).name@ == columns[at].name@
}

/// The index of the first column that bears the name of a column before it.
pub fn first_duplicate(columns: &Vec<ColumnType>) -> (found: Option<usize>)
    ensures
        match found {
            Some(at) => at < columns@.len() && repeats(columns@, at as int) && forall|j: int|
                0 <= j < at ==> !repeats(columns@, j),
            None => forall|j: int| 0 <= j < columns@.len() ==> !repeats(columns@, j),
        },
{
    let mut at: usize = 0;
    while at < columns.len()
        invariant
            at <= columns.len(),
            forall|j: int| 0 <= j < at ==> !repeats(columns@, j),
        decreases columns.len() - at,
    {
        let mut i: usize = 0;
        while i < at
            invariant
                i <= at,
                at < columns.len(),
                forall|j: int| 0 <= j < at ==> !repeats(columns@, j),
                forall|k: int|
                    0 <= k < i ==> (#[trigger] columns@[k]).name@ != columns@[at as int].name@,
            decreases at - i,
        {
            if columns[i].name == columns[at].name {
                assert(columns@[i as int].name@ == columns@[at as int].name@);
                return Some(at);
            }
            i += 1;
        }
        at += 1;
    }
    None
}

/// Struct to hold the data information, analysis results, and analysis metadata.
#[derive(Debug)]
pub struct DataInfo {
    /// Name of the dataset (inferred from the file name).
    pub data_title: String,
    /// The columns with their data types, in the order of the schema.
    pub column_types: Vec<ColumnType>,
    /// The descriptive analysis results for the dataset.
    pub descriptive_analysis: DescriptiveAnalysis,
    /// The missing values analysis results for the dataset.
    pub missing_value_analysis: MissingValueAnalysis,
}

impl DataInfo {
    /// Constructs a new DataInfo instance from the title of a dataset, its columns and the
    /// results of its analysis.
    ///
    /// Fails with `DuplicateHeader`, which then names the column, where a column bears the
    /// name of a column before it; the first such column counts.
    pub fn new(
        data_title: String,
        column_types: Vec<ColumnType>,
        descriptive_analysis: DescriptiveAnalysis,
        missing_value_analysis: MissingValueAnalysis,
    ) -> (created: Result<DataInfo, LeadsError>)
        ensures
            match created {
                Ok(info) => {
                    &&& forall|j: int| 0 <= j < column_types@.len() ==> !repeats(column_types@, j)
                    &&& info.data_title == data_title
                    &&& info.column_types == column_types
                    &&& info.descriptive_analysis == descriptive_analysis
                    &&& info.missing_value_analysis == missing_value_analysis
                },
                Err(LeadsError::Data(DataError::DuplicateHeader(name))) => exists|at: int|
                    {
                        &&& 0 <= at < column_types@.len()
                        &&& #[trigger] repeats(column_types@, at)
                        &&& forall|j: int| 0 <= j < at ==> !repeats(column_types@, j)
                        &&& name@ == column_types@[at].name@
                    },
                Err(_) => false,
            },
    {
        match first_duplicate(&column_types) {
            Some(at) => Err(
                LeadsError::Data(DataError::DuplicateHeader(column_types[at].name.clone())),
            ),
            None => Ok(
                DataInfo { data_title, column_types, descriptive_analysis, missing_value_analysis },
            ),
        }
    }
}

impl DataError {
    /// The text of the error, as it is shown.
    pub open spec fn text(&self) -> Seq<char> {
        match self {
            DataError::Io(detail) => "IO error: "@ + detail@,
            DataError::Polars(detail) => "Polars error: "@ + detail@,
            DataError::PolarsSchema(detail) => "Polars schema error: "@ + detail@,
            DataError::UnsupportedFormat(detail) => "Unsupported file format: "@ + detail@,
            DataError::FileExtension(detail) => {
                "Error in parsing file extension, check file path: "@ + detail@
            },
            DataError::FilenameParse(detail) => "Error parsing file name from path: "@ + detail@,
            DataError::DuplicateHeader(detail) => "Duplicate column name detected: "@ + detail@,
        }
    }

    /// The text of the error, as it is shown.
    pub fn message(&self) -> (message: String)
        ensures
            message@ == self.text(),
    {
        match self {
            DataError::Io(detail) => String::from_str("IO error: ").concat(detail.as_str()),
            DataError::Polars(detail) => String::from_str("Polars error: ").concat(detail.as_str()),
            DataError::PolarsSchema(detail) => String::from_str(
                "Polars schema error: ",
            ).concat(detail.as_str()),
            DataError::UnsupportedFormat(detail) => String::from_str(
                "Unsupported file format: ",
            ).concat(detail.as_str()),
            DataError::FileExtension(detail) => String::from_str(
                "Error in parsing file extension, check file path: ",
            ).concat(detail.as_str()),
            DataError::FilenameParse(detail) => String::from_str(
                "Error parsing file name from path: ",
            ).concat(detail.as_str()),
            DataError::DuplicateHeader(detail) => String::from_str(
                "Duplicate column name detected: ",
            ).concat(detail.as_str()),
        }
    }
}

} // verus!
