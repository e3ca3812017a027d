use leads::data::base::{
    file_format, first_duplicate, report_file_name, same_text, ColumnType, DataError, DataInfo,
    FileFormat,
};
use leads::data::descriptive::{
    feature_map, statistic_map, DescriptiveAnalysis, DescriptiveError, FeatureStats, StatValue,
    STATISTICS,
};
use leads::data::load::{reader_for, LoadError};
use leads::data::missing_values::{
    format_percentage, percentage, ColumnMissingValues, MissingValueAnalysis, MissingValueError,
    Percentage,
};
use leads::data::visualizations::{ReportSection, VisualizationError};
use leads::data::viz_lib::missing_value_viz::MissingValuesPlotError;
use leads::data::viz_lib::{
    DrawingError, LABEL_STYLE, PLOT_CAPTION_FONT, PLOT_HEIGHT, PLOT_MARGIN, PLOT_WIDTH,
    X_LABEL_AREA_SIZE, Y_LABEL_AREA_SIZE, _FONT,
};
use leads::report::glossary::{get_data_type_category, DataType};
use leads::report::pdf::PdfError;
use leads::{LeadsError, LeadsResult};

fn other(text: &str) -> StatValue {
    StatValue::Other { dtype: "f64".to_owned(), text: text.to_owned() }
}

/// The row of statistics of the features `a` and `b`, with counts 800 and 790.
fn two_features() -> Vec<StatValue> {
    let mut row = Vec::new();
    for (name, count) in [("a", StatValue::UInt32(800)), ("b", StatValue::UInt64(790))] {
        row.push(StatValue::Other { dtype: "str".to_owned(), text: name.to_owned() });
        for statistic in 1..12 {
            row.push(other(&format!("{}.{}", name, statistic)));
        }
        row.push(count);
    }
    row
}

fn names(list: &[&str]) -> Vec<String> {
    list.iter().map(|name| (*name).to_owned()).collect()
}

#[test]
fn statistic_map_holds_the_thirteen_offsets_in_order() {
    let map = statistic_map();
    let entries: Vec<(&str, u32)> =
        map.iter().map(|(name, offset)| (name.as_str(), *offset)).collect();
    let expected: Vec<(&str, u32)> =
        STATISTICS.iter().enumerate().map(|(offset, name)| (*name, offset as u32)).collect();
    assert_eq!(entries, expected);
    assert_eq!(map.get("column_name"), Some(&0));
    assert_eq!(map.get("iqr"), Some(&8));
    assert_eq!(map.get("count"), Some(&12));
}

#[test]
fn feature_map_gives_each_feature_thirteen_entries() {
    let map = feature_map(&names(&["a", "b", "c"]));
    let entries: Vec<(&str, u32)> =
        map.iter().map(|(name, start)| (name.as_str(), *start)).collect();
    assert_eq!(entries, vec![("a", 0), ("b", 13), ("c", 26)]);
}

#[test]
fn feature_map_keeps_the_place_of_a_repeated_name() {
    let map = feature_map(&names(&["a", "b", "a"]));
    let entries: Vec<(&str, u32)> =
        map.iter().map(|(name, start)| (name.as_str(), *start)).collect();
    assert_eq!(entries, vec![("a", 26), ("b", 13)]);
}

#[test]
fn descriptive_analysis_holds_the_given_counts() {
    // The counts of the columns are 800 and 790: values are missing in both.
    let analysis =
        DescriptiveAnalysis::new(1000, 3, names(&["a", "b"]), vec![two_features()]).unwrap();
    assert_eq!(analysis.n_rows, 1000);
    assert_eq!(analysis.n_cols, 3);
    assert_eq!(analysis.column_map.len(), 13);
    assert_eq!(analysis.feature_indices.get("b"), Some(&13));
    assert_eq!(analysis.column_stats.rows, vec![two_features()]);
}

#[test]
fn descriptive_analysis_without_numeric_columns_fails() {
    let made = DescriptiveAnalysis::new(800, 3, Vec::new(), Vec::new());
    assert_eq!(made.unwrap_err(), DescriptiveError::InvalidIndex("0".to_owned()));
    let made = DescriptiveAnalysis::new(800, 3, Vec::new(), vec![two_features()]);
    assert_eq!(made.unwrap_err(), DescriptiveError::InvalidIndex("0".to_owned()));
}

#[test]
fn descriptive_analysis_takes_any_table() {
    let made = DescriptiveAnalysis::new(800, 3, names(&["a"]), Vec::new()).unwrap();
    assert_eq!((made.n_rows, made.column_stats.rows.len()), (800, 0));
    let mut row = two_features();
    row.truncate(12);
    let made = DescriptiveAnalysis::new(0, 1, names(&["a"]), vec![row.clone()]).unwrap();
    assert_eq!((made.n_rows, made.n_cols), (0, 1));
    assert_eq!(made.column_stats.rows, vec![row]);
}

#[test]
fn get_count_reads_both_widths() {
    let stats = FeatureStats::new(vec![two_features()]).unwrap();
    let features = feature_map(&names(&["a", "b"]));
    let columns = statistic_map();
    assert_eq!(stats.get_count("a", &features, &columns), Ok(800));
    assert_eq!(stats.get_count("b", &features, &columns), Ok(790));
    assert_eq!(
        stats.get_count("c", &features, &columns),
        Err(DescriptiveError::InvalidCol("c".to_owned()))
    );
}

#[test]
fn get_count_fails_on_a_count_of_another_type() {
    let mut row = two_features();
    row[12] = other("800.0");
    let stats = FeatureStats::new(vec![row]).unwrap();
    let features = feature_map(&names(&["a", "b"]));
    let columns = statistic_map();
    assert_eq!(
        stats.get_count("a", &features, &columns),
        Err(DescriptiveError::InvalidConversion(
            "count".to_owned(),
            "f64".to_owned(),
            "u64".to_owned()
        ))
    );
    let short = FeatureStats::new(vec![two_features()[..12].to_vec()]).unwrap();
    assert_eq!(
        short.get_count("a", &features, &columns),
        Err(DescriptiveError::InvalidIndex("12".to_owned()))
    );
    let empty = FeatureStats::new(Vec::new()).unwrap();
    assert_eq!(
        empty.get_count("a", &features, &columns),
        Err(DescriptiveError::InvalidCol("No data".to_owned()))
    );
}

#[test]
fn get_statistic_finds_the_entry_by_both_offsets() {
    let stats = FeatureStats::new(vec![two_features()]).unwrap();
    let features = feature_map(&names(&["a", "b"]));
    let columns = statistic_map();
    assert_eq!(stats.get_statistic("b", "median", &features, &columns), Ok(other("b.4")));
    assert_eq!(stats.get_statistic("a", "count", &features, &columns), Ok(StatValue::UInt32(800)));
    assert_eq!(
        stats.get_statistic("a", "mode", &features, &columns),
        Err(DescriptiveError::InvalidCol("a".to_owned()))
    );
    assert_eq!(
        stats.get_statistic("z", "min", &features, &columns),
        Err(DescriptiveError::InvalidCol("z".to_owned()))
    );
    let three = feature_map(&names(&["a", "b", "c"]));
    assert_eq!(
        stats.get_statistic("c", "max", &three, &columns),
        Err(DescriptiveError::InvalidIndex("28".to_owned()))
    );
    let empty = FeatureStats::new(Vec::new()).unwrap();
    assert_eq!(
        empty.get_statistic("a", "min", &features, &columns),
        Err(DescriptiveError::InvalidCol("No data".to_owned()))
    );
}

#[test]
fn get_analysis_values_lists_every_entry_of_every_feature() {
    let stats = FeatureStats::new(vec![two_features()]).unwrap();
    let values = stats
        .get_analysis_values(&feature_map(&names(&["a", "b"])), &statistic_map())
        .unwrap();
    assert_eq!(values.len(), 2);
    for (feature, name) in values.iter().zip(["a", "b"]) {
        assert_eq!(feature.len(), 13);
        assert_eq!(feature[0], ("column_name".to_owned(), name.to_owned()));
        for statistic in 1..12 {
            assert_eq!(
                feature[statistic],
                (STATISTICS[statistic].to_owned(), format!("{}.{}", name, statistic))
            );
        }
    }
    assert_eq!(values[0][12], ("count".to_owned(), "800".to_owned()));
    assert_eq!(values[1][12], ("count".to_owned(), "790".to_owned()));
}

#[test]
fn get_analysis_values_names_the_first_index_outside_the_row() {
    let mut row = two_features();
    row.truncate(20);
    let stats = FeatureStats::new(vec![row]).unwrap();
    let values = stats.get_analysis_values(&feature_map(&names(&["a", "b"])), &statistic_map());
    assert_eq!(
        values.unwrap_err(),
        DescriptiveError::InvalidIndex(
            "attempted to index FeatureStats Vec with index 20".to_owned()
        )
    );
    let empty = FeatureStats::new(Vec::new()).unwrap();
    let values = empty.get_analysis_values(&feature_map(&names(&["a"])), &statistic_map());
    assert_eq!(values.unwrap_err(), DescriptiveError::Schema("No data".to_owned()));
}

#[test]
fn get_analysis_values_of_no_features_is_empty() {
    let stats = FeatureStats::new(vec![Vec::new()]).unwrap();
    let values = stats.get_analysis_values(&feature_map(&Vec::new()), &statistic_map());
    assert_eq!(values, Ok(Vec::new()));
}

#[test]
fn stat_values_are_shown_as_text() {
    assert_eq!(StatValue::UInt64(18_446_744_073_709_551_615).to_text(), "18446744073709551615");
    assert_eq!(StatValue::UInt32(0).to_text(), "0");
    assert_eq!(other("3.25").to_text(), "3.25");
    assert_eq!(other("3.25").duplicate(), other("3.25"));
    assert_eq!(StatValue::UInt32(7).duplicate(), StatValue::UInt32(7));
}

#[test]
fn percentage_is_rounded_to_hundredths() {
    assert_eq!(percentage(0, 800), Percentage::Hundredths(0));
    assert_eq!(percentage(800, 800), Percentage::Hundredths(10_000));
    assert_eq!(percentage(1, 3), Percentage::Hundredths(3_333));
    assert_eq!(percentage(2, 3), Percentage::Hundredths(6_667));
    assert_eq!(percentage(1, 8), Percentage::Hundredths(1_250));
    // 0.125 % is a tie and goes up.
    assert_eq!(percentage(1, 800), Percentage::Hundredths(13));
    assert_eq!(percentage(1, 20_001), Percentage::Hundredths(0));
    assert_eq!(percentage(1, 20_000), Percentage::Hundredths(1));
    assert_eq!(percentage(3, 2), Percentage::Hundredths(15_000));
    assert_eq!(percentage(u64::MAX, 1), Percentage::Hundredths(184_467_440_737_095_516_150_000));
    assert_eq!(percentage(u64::MAX, u64::MAX), Percentage::Hundredths(10_000));
}

#[test]
fn percentage_of_no_rows_is_not_a_number_or_infinite() {
    assert_eq!(percentage(0, 0), Percentage::NotANumber);
    assert_eq!(percentage(5, 0), Percentage::Infinite);
}

#[test]
fn percentage_is_formatted_with_two_places() {
    assert_eq!(format_percentage(Percentage::Hundredths(0)), "0.00%");
    assert_eq!(format_percentage(Percentage::Hundredths(7)), "0.07%");
    assert_eq!(format_percentage(Percentage::Hundredths(13)), "0.13%");
    assert_eq!(format_percentage(Percentage::Hundredths(1_250)), "12.50%");
    assert_eq!(format_percentage(Percentage::Hundredths(10_000)), "100.00%");
    assert_eq!(format_percentage(Percentage::Hundredths(10_009)), "100.09%");
    assert_eq!(format_percentage(Percentage::NotANumber), format!("{:.2}%", f64::NAN));
    assert_eq!(format_percentage(Percentage::Infinite), format!("{:.2}%", f64::INFINITY));
}

fn entry(column: &str, count: u64, percentage: Percentage) -> ColumnMissingValues {
    ColumnMissingValues { column: column.to_owned(), count, percentage }
}

#[test]
fn missing_value_analysis_keeps_the_order_of_the_columns() {
    let counts = vec![("b".to_owned(), 5), ("a".to_owned(), 0), ("c".to_owned(), 10)];
    let analysis = MissingValueAnalysis::new(counts, 10).unwrap();
    let expected = vec![
        entry("b", 5, Percentage::Hundredths(5_000)),
        entry("a", 0, Percentage::Hundredths(0)),
        entry("c", 10, Percentage::Hundredths(10_000)),
    ];
    assert_eq!(analysis.column_missing_values, expected);
    assert_eq!(MissingValueAnalysis::new(Vec::new(), 0).unwrap().column_missing_values, Vec::new());
}

#[test]
fn file_format_goes_by_the_extension() {
    assert_eq!(file_format(Some("csv")), Ok(FileFormat::Csv));
    assert_eq!(file_format(Some("tsv")), Ok(FileFormat::Tsv));
    assert_eq!(file_format(Some("parquet")), Ok(FileFormat::Parquet));
    assert_eq!(
        file_format(Some("xlsx")),
        Err(DataError::UnsupportedFormat("Unsupported file format: xlsx".to_owned()))
    );
    assert_eq!(
        file_format(Some("CSV")),
        Err(DataError::UnsupportedFormat("Unsupported file format: CSV".to_owned()))
    );
    assert_eq!(
        file_format(Some("")),
        Err(DataError::UnsupportedFormat("Unsupported file format: ".to_owned()))
    );
    assert_eq!(
        file_format(None),
        Err(DataError::FilenameParse("No file extension found".to_owned()))
    );
}

#[test]
fn reader_goes_by_the_extension() {
    assert_eq!(reader_for(Some("csv")), Ok(FileFormat::Csv));
    assert_eq!(reader_for(Some("tsv")), Ok(FileFormat::Tsv));
    assert_eq!(reader_for(Some("parquet")), Ok(FileFormat::Parquet));
    assert_eq!(reader_for(Some("json")), Err(LoadError::FileExtension("json".to_owned())));
    assert_eq!(reader_for(None), Err(LoadError::UnsupportedFormat("No file extension".to_owned())));
}

#[test]
fn same_text_compares_by_content() {
    assert!(same_text("csv", "csv"));
    assert!(!same_text("csv", "tsv"));
    assert!(!same_text("csv", "csv "));
    assert!(same_text("", ""));
}

#[test]
fn report_file_name_replaces_spaces() {
    assert_eq!(report_file_name("pokemon"), "pokemon_report.pdf");
    assert_eq!(report_file_name("my data set"), "my_data_set_report.pdf");
    assert_eq!(report_file_name(" a  b "), "_a__b__report.pdf");
    assert_eq!(report_file_name(""), "_report.pdf");
    assert_eq!(report_file_name("größe in m"), "größe_in_m_report.pdf");
    assert_eq!(report_file_name("tab\tstays"), "tab\tstays_report.pdf");
}

fn column(name: &str) -> ColumnType {
    ColumnType { name: name.to_owned(), data_type: DataType::Int64, type_text: "i64".to_owned() }
}

#[test]
fn first_duplicate_finds_the_first_repeated_name() {
    assert_eq!(first_duplicate(&vec![column("a"), column("b"), column("c")]), None);
    assert_eq!(first_duplicate(&Vec::new()), None);
    assert_eq!(first_duplicate(&vec![column("a"), column("b"), column("a"), column("b")]), Some(2));
    assert_eq!(first_duplicate(&vec![column("a"), column("b"), column("b"), column("a")]), Some(2));
    assert_eq!(first_duplicate(&vec![column("a"), column("a")]), Some(1));
}

fn info(columns: Vec<ColumnType>) -> LeadsResult<DataInfo> {
    let analysis =
        DescriptiveAnalysis::new(800, 3, names(&["a", "b"]), vec![two_features()]).unwrap();
    let missing = MissingValueAnalysis::new(Vec::new(), 800).unwrap();
    DataInfo::new("pokemon".to_owned(), columns, analysis, missing)
}

#[test]
fn data_info_rejects_duplicate_headers() {
    let made = info(vec![column("a"), column("b"), column("b"), column("a")]);
    assert_eq!(
        made.unwrap_err(),
        LeadsError::Data(DataError::DuplicateHeader("b".to_owned()))
    );
}

#[test]
fn data_info_holds_what_it_is_given() {
    let made = info(vec![column("a"), column("b")]).unwrap();
    assert_eq!(made.data_title, "pokemon");
    assert_eq!(made.column_types, vec![column("a"), column("b")]);
    assert_eq!(made.descriptive_analysis.n_rows, 800);
    assert_eq!(made.missing_value_analysis.column_missing_values, Vec::new());
}

#[test]
fn data_type_categories() {
    let numeric = [
        DataType::UInt8,
        DataType::UInt16,
        DataType::UInt32,
        DataType::UInt64,
        DataType::Int8,
        DataType::Int16,
        DataType::Int32,
        DataType::Int64,
        DataType::Float32,
        DataType::Float64,
    ];
    for data_type in numeric {
        assert_eq!(get_data_type_category(&data_type), "Numeric");
    }
    assert_eq!(get_data_type_category(&DataType::Boolean), "Boolean");
    assert_eq!(get_data_type_category(&DataType::String), "Text");
    assert_eq!(get_data_type_category(&DataType::Binary), "Binary");
    assert_eq!(get_data_type_category(&DataType::Datetime), "Date Time");
    assert_eq!(get_data_type_category(&DataType::Date), "Date");
    assert_eq!(get_data_type_category(&DataType::Time), "Time");
    assert_eq!(get_data_type_category(&DataType::Null), "Null");
    assert_eq!(get_data_type_category(&DataType::Array), "Array");
    assert_eq!(get_data_type_category(&DataType::List), "List");
    assert_eq!(get_data_type_category(&DataType::Other), "Other or unknown");
}

#[test]
fn error_messages() {
    let detail = || "boom".to_owned();
    assert_eq!(DataError::Io(detail()).message(), "IO error: boom");
    assert_eq!(DataError::Polars(detail()).message(), "Polars error: boom");
    assert_eq!(DataError::PolarsSchema(detail()).message(), "Polars schema error: boom");
    assert_eq!(DataError::UnsupportedFormat(detail()).message(), "Unsupported file format: boom");
    assert_eq!(
        DataError::FileExtension(detail()).message(),
        "Error in parsing file extension, check file path: boom"
    );
    assert_eq!(
        DataError::FilenameParse(detail()).message(),
        "Error parsing file name from path: boom"
    );
    assert_eq!(
        DataError::DuplicateHeader(detail()).message(),
        "Duplicate column name detected: boom"
    );
    assert_eq!(DescriptiveError::Polars(detail()).message(), "Polars error: boom");
    assert_eq!(DescriptiveError::Schema(detail()).message(), "FeatureStats schema error: boom");
    assert_eq!(DescriptiveError::InvalidCol(detail()).message(), "Non-existent column: boom");
    assert_eq!(DescriptiveError::InvalidIndex(detail()).message(), "Invalid index: boom");
    assert_eq!(
        DescriptiveError::InvalidConversion("count".to_owned(), "f64".to_owned(), "u64".to_owned())
            .message(),
        "Invalid data conversion for column count, from f64 to u64"
    );
    assert_eq!(MissingValueError::Polars(detail()).message(), "Polars error: boom");
    assert_eq!(MissingValueError::InvalidCol(detail()).message(), "Non-existent column: boom");
    assert_eq!(LoadError::Io(detail()).message(), "IO error: boom");
    assert_eq!(LoadError::Polars(detail()).message(), "Polars error: boom");
    assert_eq!(LoadError::UnsupportedFormat(detail()).message(), "Unsupported file format: boom");
    assert_eq!(
        LoadError::FileExtension(detail()).message(),
        "Error in parsing file extension, boom, check file path"
    );
    assert_eq!(
        DrawingError::FillBackgroundError(detail()).message(),
        "Error filling background color: boom"
    );
    assert_eq!(
        DrawingError::ChartTemplateError(detail()).message(),
        "Error creating chart template: boom"
    );
    assert_eq!(
        MissingValuesPlotError::BuildMissingMatrixError(detail()).message(),
        "Error building the missing matrix: boom"
    );
    assert_eq!(
        MissingValuesPlotError::BuildMissingnessMatrixError(detail()).message(),
        "Error building the missing matrix: boom"
    );
    assert_eq!(
        MissingValuesPlotError::PlotDrawingError(detail()).message(),
        "Error building the plot: boom"
    );
    assert_eq!(
        VisualizationError::DataFrameSamplingError(detail()).message(),
        "Error sampling the dataframe: boom"
    );
    assert_eq!(
        VisualizationError::MissingValuesPlotting(MissingValuesPlotError::PlotDrawingError(
            detail()
        ))
        .message(),
        "Missing values plot error: Error building the plot: boom"
    );
    assert_eq!(PdfError::Pdfium(detail()).message(), "Pdf error: boom");
    assert_eq!(PdfError::PageLimit.message(), "Pdf error: the document cannot hold another page");
}

#[test]
fn leads_error_wraps_the_errors_of_the_modules() {
    let detail = || "boom".to_owned();
    assert_eq!(LeadsError::IOError(detail()).message(), "IO error -> boom");
    let error: LeadsError = DataError::Io(detail()).into();
    assert_eq!(error, LeadsError::Data(DataError::Io(detail())));
    assert_eq!(error.message(), "Data error -> IO error: boom");
    let error: LeadsError = PdfError::Pdfium(detail()).into();
    assert_eq!(error, LeadsError::Report(PdfError::Pdfium(detail())));
    assert_eq!(error.message(), "Report error -> Pdf error: boom");
    let error: LeadsError = DescriptiveError::InvalidCol(detail()).into();
    assert_eq!(error, LeadsError::DescriptiveAnalysis(DescriptiveError::InvalidCol(detail())));
    assert_eq!(error.message(), "Descriptive analysis error -> Non-existent column: boom");
    let error: LeadsError = MissingValueError::InvalidCol(detail()).into();
    assert_eq!(error, LeadsError::MissingValuesAnalysis(MissingValueError::InvalidCol(detail())));
    assert_eq!(error.message(), "Missing values analysis error -> Non-existent column: boom");
    let error: LeadsError = VisualizationError::DataFrameSamplingError(detail()).into();
    assert_eq!(
        error,
        LeadsError::VisualizationError(VisualizationError::DataFrameSamplingError(detail()))
    );
    assert_eq!(error.message(), "Visualizations error -> Error sampling the dataframe: boom");
    assert_eq!(ReportSection::MissingValues, ReportSection::MissingValues);
}

#[test]
fn plot_settings() {
    assert_eq!((PLOT_WIDTH, PLOT_HEIGHT), (1200, 800));
    assert_eq!(_FONT, "sans-serif");
    assert_eq!(PLOT_CAPTION_FONT, ("sans-serif", 35));
    assert_eq!(LABEL_STYLE, ("sans-serif", 16));
    assert_eq!((PLOT_MARGIN, X_LABEL_AREA_SIZE, Y_LABEL_AREA_SIZE), (10, 50, 80));
}
