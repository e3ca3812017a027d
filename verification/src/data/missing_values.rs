//! # Missing Values Module
//!
//! This module holds the missing values found in each column of the dataset.

use crate::report::numerals::{decimal, decimal_text};
use vstd::prelude::*;
use vstd::string::*;

verus! {

/// The error types for the missing values module.
#[derive(Clone, Debug, PartialEq, Eq)]
pub enum MissingValueError {
    /// Error raised when an operation fails in the query engine.
    Polars(String),
    /// Error raised when attempting to access a column that doesn't exist.
    InvalidCol(String),
}

/// A share of the rows, in hundredths of a percent.
#[derive(Clone, Copy, Debug, PartialEq, Eq)]
pub enum Percentage {
    /// So many hundredths of a percent.
    Hundredths(u128),
    /// Some of no rows.
    Infinite,
    /// None of no rows.
    NotANumber,
}

/// The missing values of one column.
#[derive(Clone, Debug, PartialEq, Eq)]
pub struct ColumnMissingValues {
    /// The name of the column.
    pub column: String,
    /// The count of missing values.
    pub count: u64,
    /// The percentage of missing values relative to the total number of rows.
    pub percentage: Percentage,
}

/// Holds the results of missing value analysis for each column in a dataset.
#[derive(Clone, Debug, PartialEq, Eq)]
pub struct MissingValueAnalysis {
    /// For each column, in the order of the schema, its missing values.
    pub column_missing_values: Vec<ColumnMissingValues>,
}

/// The share that `count` is of `n_rows`, rounded to the nearest hundredth of a percent,
/// a half upward. The share is computed exactly, in integers: a share computed in binary
/// floating point and then printed with two decimals may come out one hundredth lower
/// where the exact share lies midway between two hundredths.
pub open spec fn percentage_of(count: u64, n_rows: u64) -> Percentage {
    if n_rows == 0 {
        if count == 0 {
            Percentage::NotANumber
        } else {
            Percentage::Infinite
        }
    } else {
        Percentage::Hundredths(((count * 20_000 + n_rows) / (2 * n_rows)) as u128)
    }
}

/// A number below one hundred in two digits.
pub open spec fn two_digits(n: nat) -> Seq<char> {
    if n < 10 {
        seq!['0'] + decimal_text(n)
    } else {
        decimal_text(n)
    }
}

/// The text of a percentage: with two decimal places and a percent sign.
pub open spec fn percentage_text(percentage: Percentage) -> Seq<char> {
    match percentage {
        Percentage::Hundredths(h) => decimal_text((h / 100) as nat) + seq!['.'] + two_digits(
            (h % 100) as nat,
        ) + seq!['%'],
        Percentage::Infinite => "inf%"@,
        Percentage::NotANumber => "NaN%"@,
    }
}

/// The share that `count` is of `n_rows`.
pub fn percentage(count: u64, n_rows: u64) -> (share: Percentage)
    ensures
        share == percentage_of(count, n_rows),
{
    if n_rows == 0 {
        if count == 0 {
            Percentage::NotANumber
        } else {
            Percentage::Infinite
        }
    } else {
        let doubled: u128 = (count as u128) * 20_000 + (n_rows as u128);
        Percentage::Hundredths(doubled / (2 * (n_rows as u128)))
    }
}

/// Renders a percentage with two decimal places and a percent sign.
pub fn format_percentage(percentage: Percentage) -> (text: String)
    ensures
        text@ == percentage_text(percentage),
{
    match percentage {
        Percentage::Hundredths(h) => {
            let mut text = decimal(h / 100);
            text.append(".");
            if h % 100 < 10 {
                text.append("0");
            }
            text.append(decimal(h % 100).as_str());
            text.append("%");
            proof {
                reveal_strlit(".");
                reveal_strlit("0");
                reveal_strlit("%");
                assert("."@ =~= seq!['.']);
                assert("0"@ =~= seq!['0']);
                assert("%"@ =~= seq!['%']);
                assert(text@ =~= percentage_text(percentage));
            }
            text
        },
        Percentage::Infinite => "inf%".to_owned(),
        Percentage::NotANumber => "NaN%".to_owned(),
    }
}

/// What the analysis of the given counts of missing values holds, for `n_rows` rows.
pub open spec fn analysed(counts: Seq<(String, u64)>, n_rows: u64) -> Seq<ColumnMissingValues> {
    Seq::new(
        counts.len(),
        |i: int|
            ColumnMissingValues {
                column: counts[i].0,
                count: counts[i].1,
                percentage: percentage_of(counts[i].1, n_rows),
            },
    )
}

impl MissingValueAnalysis {
    /// Creates a new `MissingValueAnalysis` from the number of missing values of each
    /// column, in the order of the schema, and the total number of rows in the dataset,
    /// which is used to calculate percentages.
    pub fn new(counts: Vec<(String, u64)>, n_rows: u64) -> (created: Result<
        MissingValueAnalysis,
        MissingValueError,
    >)
        ensures
            created is Ok,
            created->Ok_0.column_missing_values@ == analysed(counts@, n_rows),
    {
        let mut column_missing_values: Vec<ColumnMissingValues> = Vec::new();
        let mut i: usize = 0;
        while i < counts.len()
            invariant
                i <= counts.len(),
                column_missing_values@ == analysed(counts@, n_rows).take(i as int),
            decreases counts.len() - i,
        {
            let missing_count: u64 = counts[i].1;
            let missing_percentage = percentage(missing_count, n_rows);
            let entry = ColumnMissingValues {
                column: counts[i].0.clone(),
                count: missing_count,
                percentage: missing_percentage,
            };
            proof {
                assert(
                    column_missing_values@.push(entry) =~= analysed(counts@, n_rows).take(i + 1)
                );
            }
            column_missing_values.push(entry);
            i += 1;
        }
        proof {
            assert(analysed(counts@, n_rows).take(i as int) =~= analysed(counts@, n_rows));
        }
        Ok(MissingValueAnalysis { column_missing_values })
    }
}

impl MissingValueError {
    /// The text of the error, as it is shown.
    pub open spec fn text(&self) -> Seq<char> {
        match self {
            MissingValueError::Polars(detail) => "Polars error: "@ + detail@,
            MissingValueError::InvalidCol(detail) => "Non-existent column: "@ + detail@,
        }
    }

    /// The text of the error, as it is shown.
    pub fn message(&self) -> (message: String)
        ensures
            message@ == self.text(),
    {
        match self {
            MissingValueError::Polars(detail) => String::from_str(
                "Polars error: ",
            ).concat(detail.as_str()),
            MissingValueError::InvalidCol(detail) => String::from_str(
                "Non-existent column: ",
            ).concat(detail.as_str()),
        }
    }
}

} // verus!
