//! The glossary of the report, and the broad categories of column types.

use vstd::prelude::*;

verus! {

/// The number of entries of the glossary.
pub const GLOSSARY_SIZE: usize = 15;

/// The terms of the glossary, in the order in which they are printed.
pub const TERMS: [&'static str; 15] = [
    "bool",
    "count",
    "i64",
    "iqr",
    "kurtosis",
    "max",
    "mean",
    "median",
    "min",
    "q1",
    "q3",
    "std_dev",
    "skewness_bias",
    "skewness_raw",
    "str",
];

/// The definitions of the terms, in the order of the terms.
pub const DEFINITIONS: [&'static str; 15] = [
    "A boolean value, either true or false.",
    "The number of items in a dataset or column.",
    "A 64-bit signed integer. An i64 can represent both positive and negative integers, with a max possible value of 9,223,372,036,854,775,807 and a minimum possible value of -9,223,372,036,854,775,808.",
    "Interquartile range, the difference between the third quartile (Q3) and the first quartile (Q1). The interquartile range is a measure of statistical dispersion, or the spread of the data.",
    "A measure of the 'tailedness' of the probability distribution of a real-valued random variable. Kurtosis is the fourth central moment divided by the square of the variance. In this report's case, Fisher's definition is used, which results in `3.0` being subtracted from the result to give `0.0` for a normal distribution.",
    "The highest value in a dataset or column.",
    "The average value of a dataset or column, calculated by summing all values and dividing by the count.",
    "The middle value in a sorted dataset or column.",
    "The lowest value in a dataset or column.",
    "First quartile, the median of the lower half of the dataset or column.",
    "Third quartile, the median of the upper half of the dataset or column.",
    "Standard deviation, a measure of the amount of variation or dispersion of a set of values.",
    "Skewness calculated with a bias correction factor. Skewness is a metric for asymmetry or distortion, measuring the deviation of a given distribution of a random variable from a normal distribution.",
    "Skewness calculated without bias correction. Skewness is a metric for asymmetry or distortion, measuring the deviation of a given distribution of a random variable from a normal distribution.",
    "A string, or text value.",
];

/// The terms of the glossary.
pub open spec fn glossary_terms() -> Seq<Seq<char>> {
    seq![
        "bool"@,
        "count"@,
        "i64"@,
        "iqr"@,
        "kurtosis"@,
        "max"@,
        "mean"@,
        "median"@,
        "min"@,
        "q1"@,
        "q3"@,
        "std_dev"@,
        "skewness_bias"@,
        "skewness_raw"@,
        "str"@,
    ]
}

/// The definitions of the terms of the glossary.
pub open spec fn glossary_definitions() -> Seq<Seq<char>> {
    seq![
        "A boolean value, either true or false."@,
        "The number of items in a dataset or column."@,
        "A 64-bit signed integer. An i64 can represent both positive and negative integers, with a max possible value of 9,223,372,036,854,775,807 and a minimum possible value of -9,223,372,036,854,775,808."@,
        "Interquartile range, the difference between the third quartile (Q3) and the first quartile (Q1). The interquartile range is a measure of statistical dispersion, or the spread of the data."@,
        "A measure of the 'tailedness' of the probability distribution of a real-valued random variable. Kurtosis is the fourth central moment divided by the square of the variance. In this report's case, Fisher's definition is used, which results in `3.0` being subtracted from the result to give `0.0` for a normal distribution."@,
        "The highest value in a dataset or column."@,
        "The average value of a dataset or column, calculated by summing all values and dividing by the count."@,
        "The middle value in a sorted dataset or column."@,
        "The lowest value in a dataset or column."@,
        "First quartile, the median of the lower half of the dataset or column."@,
        "Third quartile, the median of the upper half of the dataset or column."@,
        "Standard deviation, a measure of the amount of variation or dispersion of a set of values."@,
        "Skewness calculated with a bias correction factor. Skewness is a metric for asymmetry or distortion, measuring the deviation of a given distribution of a random variable from a normal distribution."@,
        "Skewness calculated without bias correction. Skewness is a metric for asymmetry or distortion, measuring the deviation of a given distribution of a random variable from a normal distribution."@,
        "A string, or text value."@,
    ]
}

/// The terms that a report explains, each with its definition.
pub struct Glossary {
    /// The terms.
    pub terms: [&'static str; 15],
    /// The definition of each term, at the index of the term.
    pub definitions: [&'static str; 15],
}

impl Glossary {
    /// The glossary holds the fixed terms and definitions.
    pub open spec fn wf(&self) -> bool {
        forall|i: int|
            0 <= i < 15 ==> (#[trigger] self.terms@[i])@ == glossary_terms()[i] && (
            #[trigger] self.definitions@[i])@ == glossary_definitions()[i]
    }

    /// The glossary of the report.
    pub fn new() -> (glossary: Glossary)
        ensures
            glossary.wf(),
    {
        Self { terms: TERMS, definitions: DEFINITIONS }
    }
}

/// The type of the values of a column.
#[derive(Clone, Copy, Debug, PartialEq, Eq, Structural)]
pub enum DataType {
    /// True or false.
    Boolean,
    /// An unsigned 8-bit integer.
    UInt8,
    /// An unsigned 16-bit integer.
    UInt16,
    /// An unsigned 32-bit integer.
    UInt32,
    /// An unsigned 64-bit integer.
    UInt64,
    /// A signed 8-bit integer.
    Int8,
    /// A signed 16-bit integer.
    Int16,
    /// A signed 32-bit integer.
    Int32,
    /// A signed 64-bit integer.
    Int64,
    /// A 32-bit real number.
    Float32,
    /// A 64-bit real number.
    Float64,
    /// Text.
    String,
    /// Raw bytes.
    Binary,
    /// A date with a time of day.
    Datetime,
    /// A calendar date.
    Date,
    /// A time of day.
    Time,
    /// Nothing but missing values.
    Null,
    /// A list of fixed length.
    Array,
    /// A list of variable length.
    List,
    /// Any other type.
    Other,
}

/// The name of the category of `data_type`.
pub open spec fn category_name(data_type: DataType) -> Seq<char> {
    match data_type {
        DataType::Boolean => "Boolean"@,
        DataType::UInt8 => "Numeric"@,
        DataType::UInt16 => "Numeric"@,
        DataType::UInt32 => "Numeric"@,
        DataType::UInt64 => "Numeric"@,
        DataType::Int8 => "Numeric"@,
        DataType::Int16 => "Numeric"@,
        DataType::Int32 => "Numeric"@,
        DataType::Int64 => "Numeric"@,
        DataType::Float32 => "Numeric"@,
        DataType::Float64 => "Numeric"@,
        DataType::String => "Text"@,
        DataType::Binary => "Binary"@,
        DataType::Datetime => "Date Time"@,
        DataType::Date => "Date"@,
        DataType::Time => "Time"@,
        DataType::Null => "Null"@,
        DataType::Array => "Array"@,
        DataType::List => "List"@,
        DataType::Other => "Other or unknown"@,
    }
}

/// The broad category that a column type belongs to, as it is printed in the overview.
pub fn get_data_type_category(data_type: &DataType) -> (category: String)
    ensures
        category@ == category_name(*data_type),
{
    match data_type {
        DataType::Boolean => "Boolean".to_owned(),
        DataType::UInt8 => "Numeric".to_owned(),
        DataType::UInt16 => "Numeric".to_owned(),
        DataType::UInt32 => "Numeric".to_owned(),
        DataType::UInt64 => "Numeric".to_owned(),
        DataType::Int8 => "Numeric".to_owned(),
        DataType::Int16 => "Numeric".to_owned(),
        DataType::Int32 => "Numeric".to_owned(),
        DataType::Int64 => "Numeric".to_owned(),
        DataType::Float32 => "Numeric".to_owned(),
        DataType::Float64 => "Numeric".to_owned(),
        DataType::String => "Text".to_owned(),
        DataType::Binary => "Binary".to_owned(),
        DataType::Datetime => "Date Time".to_owned(),
        DataType::Date => "Date".to_owned(),
        DataType::Time => "Time".to_owned(),
        DataType::Null => "Null".to_owned(),
        DataType::Array => "Array".to_owned(),
        DataType::List => "List".to_owned(),
        DataType::Other => "Other or unknown".to_owned(),
    }
}

} // verus!
