//! # Descriptive Analysis Module
//!
//! This module handles the storage of basic descriptive analysis results for datasets, and
//! the access to them.
//!
//! The statistics of all numeric features lie in one row, feature after feature, each
//! feature with its thirteen entries in a fixed order: its name, then twelve statistics.
//! Two maps lead into the row:
//! - `column_map`: maps statistic names to their offsets within a feature's entries;
//! - `feature_indices`: maps feature names to the index of their first entry in the row.

use crate::ordered_map::{
    distinct_names, empty_map, entries, entry_list, find, has_name, index_of_name, lemma_one_place,
    lemma_recorded, number_of, record, recorded, Records,
};
use crate::report::numerals::{decimal, decimal_text};
use crate::report::text::texts;
use indexmap::IndexMap;
use vstd::prelude::*;
use vstd::string::*;

verus! {

/// The number of entries that each feature has in the row: its name and twelve statistics.
pub const ENTRIES_PER_FEATURE: u32 = 13;

/// The names of the entries of a feature, in the order in which they lie in the row.
pub const STATISTICS: [&'static str; 13] = [
    "column_name",
    "min",
    "max",
    "mean",
    "median",
    "std_dev",
    "q1",
    "q3",
    "iqr",
    "skewness_bias",
    "skewness_raw",
    "kurtosis",
    "count",
];

/// The error types for the descriptive analysis module.
#[derive(Clone, Debug, PartialEq, Eq)]
pub enum DescriptiveError {
    /// Occurs when the query engine fails to complete an operation.
    Polars(String),
    /// Occurs during schema validation when creating the descriptive analysis FeatureStats struct.
    Schema(String),
    /// Occurs when trying to interact with a column that doesn't exist.
    InvalidCol(String),
    /// Occurs when trying to access and invalid column index
    InvalidIndex(String),
    /// Occurs when data type conversion fails for a column value.
    InvalidConversion(String, String, String),
}

/// One entry of the row of statistics.
#[derive(Clone, Debug, PartialEq, Eq)]
pub enum StatValue {
    /// An unsigned 64-bit count.
    UInt64(u64),
    /// An unsigned 32-bit count.
    UInt32(u32),
    /// A value of any other type, with the name of its type and the text it is shown as.
    Other { dtype: String, text: String },
}

impl StatValue {
    /// The text that the value is shown as.
    pub open spec fn shown(&self) -> Seq<char> {
        match self {
            StatValue::UInt64(count) => decimal_text(*count as nat),
            StatValue::UInt32(count) => decimal_text(*count as nat),
            StatValue::Other { dtype, text } => text@,
        }
    }

    /// The text that the value is shown as.
    pub fn to_text(&self) -> (text: String)
        ensures
            text@ == self.shown(),
    {
        match self {
            StatValue::UInt64(count) => decimal(*count as u128),
            StatValue::UInt32(count) => decimal(*count as u128),
            StatValue::Other { dtype, text } => text.clone(),
        }
    }

    /// A copy of the value.
    pub fn duplicate(&self) -> (copy: StatValue)
        ensures
            copy == *self,
    {
        match self {
            StatValue::UInt64(count) => StatValue::UInt64(*count),
            StatValue::UInt32(count) => StatValue::UInt32(*count),
            StatValue::Other { dtype, text } => StatValue::Other {
                dtype: dtype.clone(),
                text: text.clone(),
            },
        }
    }
}

/// The names of the entries of a feature, in the order in which they lie in the row.
pub open spec fn statistic_names() -> Seq<Seq<char>> {
    seq![
        "column_name"@,
        "min"@,
        "max"@,
        "mean"@,
        "median"@,
        "std_dev"@,
        "q1"@,
        "q3"@,
        "iqr"@,
        "skewness_bias"@,
        "skewness_raw"@,
        "kurtosis"@,
        "count"@,
    ]
}

/// The offset of each entry of a feature, under its name.
pub open spec fn statistic_offsets() -> Records {
    Seq::new(13, |i: int| (statistic_names()[i], i as u32))
}

/// The index of the first entry of each of the first `count` features, under its name. A
/// name that occurs again keeps its place and takes the later index.
pub open spec fn feature_offsets(names: Seq<Seq<char>>, count: int) -> Records
    decreases count,
{
    if count <= 0 {
        Seq::empty()
    } else {
        recorded(
            feature_offsets(names, count - 1),
            names[count - 1],
            ((count - 1) * ENTRIES_PER_FEATURE) as u32,
        )
    }
}

/// The name and the shown value of each entry of the feature whose entries start at
/// `start`.
pub open spec fn feature_values(row: Seq<StatValue>, start: u32, columns: Records) -> Seq<
    (Seq<char>, Seq<char>),
> {
    Seq::new(columns.len(), |s: int| (columns[s].0, row[start + columns[s].1].shown()))
}

/// The entries of every feature, feature by feature.
pub open spec fn analysis_values(row: Seq<StatValue>, features: Records, columns: Records)
    -> Seq<Seq<(Seq<char>, Seq<char>)>> {
    Seq::new(features.len(), |f: int| feature_values(row, features[f].1, columns))
}

/// Whether the `s`-th entry of the `f`-th feature lies in a row of the given length.
pub open spec fn entry_in_row(length: int, features: Records, columns: Records, f: int, s: int)
    -> bool {
    features[f].1 + columns[s].1 < length
}

/// Whether, feature by feature and entry by entry, every entry before the `s`-th of the
/// `f`-th feature lies in a row of the given length.
pub open spec fn entries_before_in_row(
    length: int,
    features: Records,
    columns: Records,
    f: int,
    s: int,
) -> bool {
    forall|g: int, t: int|
        0 <= g < features.len() && 0 <= t < columns.len() && (g < f || (g == f && t < s))
            ==> #[trigger] entry_in_row(length, features, columns, g, t)
}

/// Whether `error` is the error that the entries of the features cannot be listed for:
/// `Schema` where the table has no row, and `InvalidIndex`, which names the index, where an
/// entry lies outside the first row; the first such entry counts.
pub open spec fn values_error(
    rows: Seq<Vec<StatValue>>,
    features: Records,
    columns: Records,
    error: DescriptiveError,
) -> bool {
    match error {
        DescriptiveError::Schema(text) => rows.len() == 0 && text@ == "No data"@,
        DescriptiveError::InvalidIndex(text) => rows.len() > 0 && exists|f: int, s: int|
            {
                &&& 0 <= f < features.len()
                &&& 0 <= s < columns.len()
                &&& entries_before_in_row(rows[0]@.len() as int, features, columns, f, s)
                &&& !entry_in_row(rows[0]@.len() as int, features, columns, f, s)
                &&& text@ == "attempted to index FeatureStats Vec with index "@ + decimal_text(
                    (features[f].1 + columns[s].1) as nat,
                )
            },
        _ => false,
    }
}

/// What a list of pairs of strings stands for.
pub open spec fn pairs(list: Seq<(String, String)>) -> Seq<(Seq<char>, Seq<char>)> {
    Seq::new(list.len(), |i: int| (list[i].0@, list[i].1@))
}

/// What a list of lists of pairs of strings stands for.
pub open spec fn tables(list: Seq<Vec<(String, String)>>) -> Seq<Seq<(Seq<char>, Seq<char>)>> {
    Seq::new(list.len(), |i: int| pairs(list[i]@))
}

/// Struct to hold descriptive analysis results for all features: the rows of the table of
/// statistics, of which the first holds them all.
#[derive(Clone, Debug, PartialEq, Eq)]
pub struct FeatureStats {
    /// The rows of the table.
    pub rows: Vec<Vec<StatValue>>,
}

impl FeatureStats {
    /// Constructor for the FeatureStats struct.
    pub fn new(rows: Vec<Vec<StatValue>>) -> (created: Result<FeatureStats, DescriptiveError>)
        ensures
            created == Ok::<FeatureStats, DescriptiveError>(FeatureStats { rows }),
    {
        Ok(Self { rows })
    }

    /// Gets a vector of all the descriptive analysis values for each feature: for each
    /// feature, in the order of `feature_indices`, the name and the shown value of each of
    /// its entries, in the order of `column_map`.
    ///
    /// Fails with `Schema` where the table has no row, and with `InvalidIndex`, which then
    /// names the index, where an entry lies outside the row; the first such entry counts.
    #[verifier::loop_isolation(false)]
    pub fn get_analysis_values(
        &self,
        feature_indices: &IndexMap<String, u32>,
        column_map: &IndexMap<String, u32>,
    ) -> (values: Result<Vec<Vec<(String, String)>>, DescriptiveError>)
        ensures
            match values {
                Ok(list) => {
                    &&& self.rows@.len() > 0
                    &&& entries_before_in_row(
                        self.rows@[0]@.len() as int,
                        entries(*feature_indices),
                        entries(*column_map),
                        entries(*feature_indices).len() as int,
                        0,
                    )
                    &&& tables(list@) == analysis_values(
                        self.rows@[0]@,
                        entries(*feature_indices),
                        entries(*column_map),
                    )
                },
                Err(error) => values_error(
                    self.rows@,
                    entries(*feature_indices),
                    entries(*column_map),
                    error,
                ),
            },
    {
        let mut result: Vec<Vec<(String, String)>> = Vec::new();
        if self.rows.len() == 0 {
            return Err(DescriptiveError::Schema("No data".to_owned()));
        }
        let row: &Vec<StatValue> = &self.rows[0];
        let features = entry_list(feature_indices);
        let columns = entry_list(column_map);
        let ghost feature_records = entries(*feature_indices);
        let ghost column_records = entries(*column_map);
        let ghost length = row@.len() as int;

        let mut f: usize = 0;
        while f < features.len()
            invariant
                f <= features.len(),
                entries_before_in_row(length, feature_records, column_records, f as int, 0),
                result@.len() == f,
                tables(result@) == analysis_values(row@, feature_records, column_records).take(
                    f as int,
                ),
            decreases features.len() - f,
        {
            let feature_index: u32 = features[f].1;
            let mut feature_stats: Vec<(String, String)> = Vec::new();
            let mut s: usize = 0;
            while s < columns.len()
                invariant
                    s <= columns.len(),
                    entries_before_in_row(
                        length,
                        feature_records,
                        column_records,
                        f as int,
                        s as int,
                    ),
                    feature_stats@.len() == s,
                    pairs(feature_stats@) == feature_values(
                        row@,
                        feature_index,
                        column_records,
                    ).take(s as int),
                decreases columns.len() - s,
            {
                let statistic: &String = &columns[s].0;
                let column_index: u64 = (feature_index as u64) + (columns[s].1 as u64);
                if column_index >= row.len() as u64 {
                    let message = String::from_str(
                        "attempted to index FeatureStats Vec with index ",
                    ).concat(decimal(column_index as u128).as_str());
                    proof {
                        assert(columns@[s as int].1 == column_records[s as int].1);
                        assert(!entry_in_row(
                            length,
                            feature_records,
                            column_records,
                            f as int,
                            s as int,
                        ));
                    }
                    return Err(DescriptiveError::InvalidIndex(message));
                }
                let value: &StatValue = &row[column_index as usize];
                let pair = (statistic.clone(), value.to_text());
                proof {
                    assert(
                        entry_in_row(length, feature_records, column_records, f as int, s as int)
                    );
                    let wanted = feature_values(row@, feature_index, column_records);
                    let made = pairs(feature_stats@.push(pair));
                    assert(columns@[s as int].0@ == column_records[s as int].0);
                    assert forall|i: int| 0 <= i < s + 1 implies made[i] == wanted.take(
                        s + 1,
                    )[i] by {
                        if i < s {
                            assert(pairs(feature_stats@)[i] == wanted.take(s as int)[i]);
                        }
                    }
                    assert(made =~= wanted.take(s + 1));
                }
                feature_stats.push(pair);
                s += 1;
            }
            proof {
                let all = analysis_values(row@, feature_records, column_records);
                assert(feature_values(row@, feature_index, column_records).take(s as int)
                    =~= feature_values(row@, feature_index, column_records));
                let made = tables(result@.push(feature_stats));
                assert forall|i: int| 0 <= i < f + 1 implies made[i] == all.take(f + 1)[i] by {
                    if i < f {
                        assert(tables(result@)[i] == all.take(f as int)[i]);
                    }
                }
                assert(made =~= all.take(f + 1));
            }
            result.push(feature_stats);
            f += 1;
        }
        proof {
            let all = analysis_values(row@, feature_records, column_records);
            assert(all.take(f as int) =~= all);
        }
        Ok(result)
    }

    /// Get a single statistic for a feature.
    ///
    /// Fails with `InvalidCol`, which then names the feature, where the feature or the
    /// statistic is not in its map; with `InvalidCol` where the table has no row; and
    /// with `InvalidIndex`, which then names the index, where the entry lies outside the
    /// row.
    pub fn get_statistic(
        &self,
        feature: &str,
        statistic: &str,
        feature_indices: &IndexMap<String, u32>,
        column_map: &IndexMap<String, u32>,
    ) -> (value: Result<StatValue, DescriptiveError>)
        requires
            distinct_names(entries(*feature_indices)),
            distinct_names(entries(*column_map)),
        ensures
            ({
                let start = number_of(entries(*feature_indices), feature@);
                let offset = number_of(entries(*column_map), statistic@);
                match value {
                    Ok(found) => {
                        &&& start is Some
                        &&& offset is Some
                        &&& self.rows@.len() > 0
                        &&& start->Some_0 + offset->Some_0 < self.rows@[0]@.len()
                        &&& found == self.rows@[0]@[start->Some_0 + offset->Some_0]
                    },
                    Err(DescriptiveError::InvalidCol(name)) => {
                        ||| (start is None || offset is None) && name@ == feature@
                        ||| start is Some && offset is Some && self.rows@.len() == 0 && name@
                            == "No data"@
                    },
                    Err(DescriptiveError::InvalidIndex(text)) => {
                        &&& start is Some
                        &&& offset is Some
                        &&& self.rows@.len() > 0
                        &&& start->Some_0 + offset->Some_0 >= self.rows@[0]@.len()
                        &&& text@ == decimal_text((start->Some_0 + offset->Some_0) as nat)
                    },
                    Err(_) => false,
                }
            }),
    {
        let feature_index: u32 = match find(feature_indices, feature) {
            Some(index) => index,
            None => {
                return Err(DescriptiveError::InvalidCol(feature.to_owned()));
            },
        };
        let statistic_offset: u32 = match find(column_map, statistic) {
            Some(offset) => offset,
            None => {
                return Err(DescriptiveError::InvalidCol(feature.to_owned()));
            },
        };
        let column_index: u64 = (feature_index as u64) + (statistic_offset as u64);

        if self.rows.len() == 0 {
            return Err(DescriptiveError::InvalidCol("No data".to_owned()));
        }
        let row: &Vec<StatValue> = &self.rows[0];
        if column_index >= row.len() as u64 {
            return Err(DescriptiveError::InvalidIndex(decimal(column_index as u128)));
        }
        Ok(row[column_index as usize].duplicate())
    }

    /// Gets the row count for a specific feature: its entry `count`, which is an unsigned
    /// count of 64 or of 32 bits.
    ///
    /// Fails as `get_statistic` does, and with `InvalidConversion`, which then names the
    /// type found, where the entry is of another type.
    pub fn get_count(
        &self,
        feature: &str,
        feature_indices: &IndexMap<String, u32>,
        column_map: &IndexMap<String, u32>,
    ) -> (count: Result<u64, DescriptiveError>)
        requires
            distinct_names(entries(*feature_indices)),
            distinct_names(entries(*column_map)),
        ensures
            ({
                let start = number_of(entries(*feature_indices), feature@);
                let offset = number_of(entries(*column_map), "count"@);
                let found = start is Some && offset is Some && self.rows@.len() > 0
                    && start->Some_0 + offset->Some_0 < self.rows@[0]@.len();
                let entry = self.rows@[0]@[start->Some_0 + offset->Some_0];
                match count {
                    Ok(number) => found && (entry == StatValue::UInt64(number) || (
                    number <= u32::MAX && entry == StatValue::UInt32(number as u32))),
                    Err(DescriptiveError::InvalidCol(name)) => {
                        ||| (start is None || offset is None) && name@ == feature@
                        ||| start is Some && offset is Some && self.rows@.len() == 0 && name@
                            == "No data"@
                    },
                    Err(DescriptiveError::InvalidIndex(text)) => {
                        &&& start is Some
                        &&& offset is Some
                        &&& self.rows@.len() > 0
                        &&& start->Some_0 + offset->Some_0 >= self.rows@[0]@.len()
                        &&& text@ == decimal_text((start->Some_0 + offset->Some_0) as nat)
                    },
                    Err(DescriptiveError::InvalidConversion(column, from, to)) => {
                        &&& found
                        &&& entry is Other
                        &&& column@ == "count"@
                        &&& from@ == entry->dtype@
                        &&& to@ == "u64"@
                    },
                    Err(_) => false,
                }
            }),
    {
        let value = match self.get_statistic(feature, "count", feature_indices, column_map) {
            Ok(value) => value,
            Err(error) => {
                return Err(error);
            },
        };
        match value {
            StatValue::UInt64(count) => Ok(count),
            StatValue::UInt32(count) => Ok(count as u64),
            StatValue::Other { dtype, text } => Err(
                DescriptiveError::InvalidConversion("count".to_owned(), dtype, "u64".to_owned()),
            ),
        }
    }
}

/// No two entries of a feature share a name.
pub proof fn lemma_statistic_names_distinct()
    ensures
        forall|i: int, j: int|
            0 <= i < j < 13 ==> #[trigger] statistic_names()[i] != #[trigger] statistic_names()[j],
        distinct_names(statistic_offsets()),
{
    reveal_strlit("column_name");
    reveal_strlit("min");
    reveal_strlit("max");
    reveal_strlit("mean");
    reveal_strlit("median");
    reveal_strlit("std_dev");
    reveal_strlit("q1");
    reveal_strlit("q3");
    reveal_strlit("iqr");
    reveal_strlit("skewness_bias");
    reveal_strlit("skewness_raw");
    reveal_strlit("kurtosis");
    reveal_strlit("count");
    let names = statistic_names();
    assert(names[1][1] != names[2][1]);
    assert(names[3][2] != names[12][2]);
    assert(names[6][1] != names[7][1]);
    assert(names[9][9] != names[10][9]);
    assert(names[4][0] != names[5][0]);
    assert(names[1][0] != names[8][0]);
    assert(names[2][0] != names[8][0]);
    assert(names[10][0] != names[11][0]);
    assert forall|i: int, j: int| 0 <= i < j < 13 implies #[trigger] names[i]
        != #[trigger] names[j] by {
        if names[i].len() == names[j].len() {
            assert(names[i][0] != names[j][0] || names[i][1] != names[j][1] || names[i][2]
                != names[j][2] || names[i][9] != names[j][9]);
        }
    }
    assert forall|i: int, j: int| 0 <= i < j < statistic_offsets().len() implies (
    #[trigger] statistic_offsets()[i]).0 != (#[trigger] statistic_offsets()[j]).0 by {
        assert(names[i] != names[j]);
    }
}

/// The map from the names of the entries of a feature to their offsets.
pub fn statistic_map() -> (map: IndexMap<String, u32>)
    ensures
        entries(map) == statistic_offsets(),
        distinct_names(entries(map)),
{
    let mut map = empty_map();
    let mut i: usize = 0;
    proof {
        lemma_statistic_names_distinct();
        assert(entries(map) =~= statistic_offsets().take(0));
    }
    while i < 13
        invariant
            i <= 13,
            entries(map) == statistic_offsets().take(i as int),
            distinct_names(entries(map)),
            distinct_names(statistic_offsets()),
        decreases 13 - i,
    {
        let ghost before = entries(map);
        record(&mut map, STATISTICS[i], i as u32);
        proof {
            let all = statistic_offsets();
            assert(STATISTICS[i as int]@ == all[i as int].0);
            if has_name(before, all[i as int].0) {
                let at = index_of_name(before, all[i as int].0);
                assert(before[at] == all[at]);
                assert(all[at].0 != all[i as int].0);
            }
            assert(entries(map) =~= all.take(i + 1));
        }
        i += 1;
    }
    proof {
        assert(statistic_offsets().take(13) =~= statistic_offsets());
    }
    map
}

/// The map from the names of the features to the index of the first entry of each.
pub fn feature_map(names: &Vec<String>) -> (map: IndexMap<String, u32>)
    requires
        names@.len() * ENTRIES_PER_FEATURE <= u32::MAX,
    ensures
        entries(map) == feature_offsets(texts(names@), names@.len() as int),
        distinct_names(entries(map)),
{
    let mut map = empty_map();
    let mut index: usize = 0;
    let ghost views = texts(names@);
    while index < names.len()
        invariant
            index <= names.len(),
            names@.len() * ENTRIES_PER_FEATURE <= u32::MAX,
            views == texts(names@),
            entries(map) == feature_offsets(views, index as int),
            distinct_names(entries(map)),
        decreases names.len() - index,
    {
        assert(index * ENTRIES_PER_FEATURE <= names@.len() * ENTRIES_PER_FEATURE)
            by (nonlinear_arith)
            requires
                index <= names@.len(),
        ;
        let start: u32 = (index as u32) * ENTRIES_PER_FEATURE;
        assert(names@[index as int]@ == views[index as int]);
        record(&mut map, names[index].as_str(), start);
        index += 1;
    }
    map
}

/// Struct to hold the overall descriptive analysis results.
#[derive(Debug)]
pub struct DescriptiveAnalysis {
    /// The number of rows in the data.
    pub n_rows: u64,
    /// The number of columns in the data.
    pub n_cols: u64,
    /// The map of each feature's descriptive analysis results.
    pub column_stats: FeatureStats,
    /// The column offset map for accessing specific statistics.
    pub column_map: IndexMap<String, u32>,
    /// Offset indices for each feature in the row of statistics.
    pub feature_indices: IndexMap<String, u32>,
}

impl DescriptiveAnalysis {
    /// The statistics lie in the fixed order, and no two features share a name.
    pub open spec fn wf(&self) -> bool {
        entries(self.column_map) == statistic_offsets() && distinct_names(
            entries(self.feature_indices),
        )
    }

    /// Whether the table of statistics has a row and every entry of every feature lies in
    /// it.
    pub open spec fn available(&self) -> bool {
        self.column_stats.rows@.len() > 0 && entries_before_in_row(
            self.column_stats.rows@[0]@.len() as int,
            entries(self.feature_indices),
            entries(self.column_map),
            entries(self.feature_indices).len() as int,
            0,
        )
    }

    /// Whether `error` is the error that the entries of the features cannot be listed for.
    pub open spec fn unavailable_for(&self, error: DescriptiveError) -> bool {
        values_error(
            self.column_stats.rows@,
            entries(self.feature_indices),
            entries(self.column_map),
            error,
        )
    }

    /// The name and the shown value of each entry of each feature.
    pub open spec fn values(&self) -> Seq<Seq<(Seq<char>, Seq<char>)>> {
        analysis_values(
            self.column_stats.rows@[0]@,
            entries(self.feature_indices),
            entries(self.column_map),
        )
    }

    /// Constructor for the DescriptiveAnalysis struct, from the number of rows and of columns
    /// of the data, the names of its numeric columns, and the table of their statistics.
    ///
    /// Fails with `InvalidIndex("0")` where there is no numeric column.
    pub fn new(
        n_rows: u64,
        n_cols: u64,
        numeric_columns: Vec<String>,
        rows: Vec<Vec<StatValue>>,
    ) -> (created: Result<DescriptiveAnalysis, DescriptiveError>)
        requires
            numeric_columns@.len() * ENTRIES_PER_FEATURE <= u32::MAX,
        ensures
            match created {
                Ok(analysis) => {
                    &&& numeric_columns@.len() > 0
                    &&& analysis.wf()
                    &&& analysis.n_rows == n_rows
                    &&& analysis.n_cols == n_cols
                    &&& analysis.column_stats.rows == rows
                    &&& entries(analysis.column_map) == statistic_offsets()
                    &&& entries(analysis.feature_indices) == feature_offsets(
                        texts(numeric_columns@),
                        numeric_columns@.len() as int,
                    )
                },
                Err(DescriptiveError::InvalidIndex(text)) => numeric_columns@.len() == 0 && text@
                    == "0"@,
                Err(_) => false,
            },
    {
        let feature_stats = match FeatureStats::new(rows) {
            Ok(stats) => stats,
            Err(error) => {
                return Err(error);
            },
        };
        let column_map = statistic_map();
        let feature_indices = feature_map(&numeric_columns);
        if numeric_columns.len() == 0 {
            return Err(DescriptiveError::InvalidIndex("0".to_owned()));
        }
        Ok(Self { n_rows, n_cols, column_stats: feature_stats, column_map, feature_indices })
    }
}

/// The entry `count` lies twelve places behind the name of a feature.
pub proof fn lemma_count_offset()
    ensures
        number_of(statistic_offsets(), "count"@) == Some(12u32),
{
    lemma_statistic_names_distinct();
    lemma_one_place(statistic_offsets(), "count"@, 12);
}

/// Each of the first `count` features has an index recorded under its name, and the names
/// recorded are distinct.
pub proof fn lemma_feature_offsets_hold(names: Seq<Seq<char>>, count: int, at: int)
    requires
        0 <= at < count <= names.len(),
    ensures
        distinct_names(feature_offsets(names, count)),
        number_of(feature_offsets(names, count), names[at]) is Some,
    decreases count,
{
    let before = feature_offsets(names, count - 1);
    let number = ((count - 1) * ENTRIES_PER_FEATURE) as u32;
    lemma_feature_offsets_distinct(names, count - 1);
    lemma_recorded(before, names[count - 1], number);
    if at < count - 1 && names[at] != names[count - 1] {
        lemma_feature_offsets_hold(names, count - 1, at);
    }
}

/// The names recorded for the first `count` features are distinct.
pub proof fn lemma_feature_offsets_distinct(names: Seq<Seq<char>>, count: int)
    requires
        count <= names.len(),
    ensures
        distinct_names(feature_offsets(names, count)),
    decreases count,
{
    if count > 0 {
        lemma_feature_offsets_distinct(names, count - 1);
        lemma_recorded(
            feature_offsets(names, count - 1),
            names[count - 1],
            ((count - 1) * ENTRIES_PER_FEATURE) as u32,
        );
    }
}

impl DescriptiveError {
    /// The text of the error, as it is shown.
    pub open spec fn text(&self) -> Seq<char> {
        match self {
            DescriptiveError::Polars(detail) => "Polars error: "@ + detail@,
            DescriptiveError::Schema(detail) => "FeatureStats schema error: "@ + detail@,
            DescriptiveError::InvalidCol(detail) => "Non-existent column: "@ + detail@,
            DescriptiveError::InvalidIndex(detail) => "Invalid index: "@ + detail@,
            DescriptiveError::InvalidConversion(column, from, to) => {
                "Invalid data conversion for column "@ + column@ + ", from "@ + from@ + " to "@
                    + to@
            },
        }
    }

    /// The text of the error, as it is shown.
    pub fn message(&self) -> (message: String)
        ensures
            message@ == self.text(),
    {
        match self {
            DescriptiveError::Polars(detail) => String::from_str(
                "Polars error: ",
            ).concat(detail.as_str()),
            DescriptiveError::Schema(detail) => String::from_str(
                "FeatureStats schema error: ",
            ).concat(detail.as_str()),
            DescriptiveError::InvalidCol(detail) => String::from_str(
                "Non-existent column: ",
            ).concat(detail.as_str()),
            DescriptiveError::InvalidIndex(detail) => String::from_str(
                "Invalid index: ",
            ).concat(detail.as_str()),
            DescriptiveError::InvalidConversion(column, from, to) => String::from_str(
                "Invalid data conversion for column ",
            ).concat(column.as_str())
                .concat(", from ")
                .concat(from.as_str())
                .concat(" to ")
                .concat(to.as_str()),
        }
    }
}

} // verus!
