use leads::data::base::{ColumnType, DataInfo};
use leads::data::descriptive::{DescriptiveAnalysis, DescriptiveError, StatValue, STATISTICS};
use leads::data::missing_values::MissingValueAnalysis;
use leads::prelude::PageManager;
use leads::report::document::{Page, PageObject};
use leads::report::fonts::{Font, FontSet};
use leads::report::glossary::DataType;
use leads::report::units::PageGeometry;
use leads::LeadsError;

fn texts_of(page: &Page) -> Vec<String> {
    page.objects
        .iter()
        .filter_map(|object| match object {
            PageObject::Text { text, .. } => Some(text.clone()),
            _ => None,
        })
        .collect()
}

fn statistics_row(features: &[&str], count: u32) -> Vec<StatValue> {
    let mut row = Vec::new();
    for name in features {
        row.push(StatValue::Other { dtype: "str".to_owned(), text: (*name).to_owned() });
        for statistic in 1..12 {
            row.push(StatValue::Other {
                dtype: "f64".to_owned(),
                text: format!("{}.{}", statistic, name.len()),
            });
        }
        row.push(StatValue::UInt32(count));
    }
    row
}

fn analysis(features: &[&str], count: u32) -> DescriptiveAnalysis {
    let names: Vec<String> = features.iter().map(|name| (*name).to_owned()).collect();
    DescriptiveAnalysis::new(count as u64, 3, names, vec![statistics_row(features, count)])
        .unwrap()
}

fn column(name: &str, data_type: DataType, type_text: &str) -> ColumnType {
    ColumnType { name: name.to_owned(), data_type, type_text: type_text.to_owned() }
}

/// A dataset of 800 rows and three columns, two of them numeric, without missing values.
fn pokemon() -> DataInfo {
    let columns = vec![
        column("name", DataType::String, "str"),
        column("hp", DataType::Int64, "i64"),
        column("speed", DataType::Float64, "f64"),
    ];
    let missing = MissingValueAnalysis::new(
        vec![("name".to_owned(), 0), ("hp".to_owned(), 0), ("speed".to_owned(), 0)],
        800,
    )
    .unwrap();
    DataInfo::new("pokemon".to_owned(), columns, analysis(&["hp", "speed"], 800), missing).unwrap()
}

#[test]
fn report_of_three_columns_has_its_sections_in_page_order() {
    let mut manager = PageManager::new(FontSet::uniform(500)).unwrap();
    manager.generate_dated_report(&pokemon(), "March 04, 2025").unwrap();
    // Four sections take four rows of the table of contents, which is one page.
    let expected: Vec<(String, u32)> = vec![
        ("Data Types Overview".to_owned(), 2),
        ("Descriptive Analysis".to_owned(), 3),
        ("Missing Values Analysis".to_owned(), 4),
        ("Glossary".to_owned(), 5),
        ("Table of Contents".to_owned(), 1),
    ];
    assert_eq!(manager.sections(), expected);
    let pages = &manager.document.pages;
    assert_eq!(texts_of(&pages[0])[0], "Exploratory Data");
    assert_eq!(texts_of(&pages[1])[0], "Table of Contents");
    assert_eq!(texts_of(&pages[2])[0], "Data Types Overview");
    assert_eq!(texts_of(&pages[3])[0], "Descriptive Analysis");
    assert_eq!(texts_of(&pages[4])[0], "Missing Values Analysis");
    assert_eq!(texts_of(&pages[5])[0], "Glossary");
    // Each section starts on the page whose index the table of contents shows; the
    // folios behind the table count from one.
    let toc = texts_of(&pages[1]);
    for (name, page) in &expected[..4] {
        let row = toc.iter().position(|text| text == name).unwrap();
        assert_eq!(toc[row + 1], format!("{}", page));
        let start = &pages[*page as usize];
        assert_eq!(&texts_of(start)[0], name);
        assert_eq!(texts_of(start).last().unwrap(), &format!("{}", page - 1));
    }
    assert_eq!(texts_of(&pages[1]).last().unwrap(), "I");
    // The title page carries no folio.
    assert_eq!(texts_of(&pages[0]).last().unwrap(), "LEADS version: 0.0.1");
}

#[test]
fn report_is_the_same_for_the_same_input() {
    let mut first = PageManager::new(FontSet::uniform(500)).unwrap();
    first.generate_dated_report(&pokemon(), "March 04, 2025").unwrap();
    let mut second = PageManager::new(FontSet::uniform(500)).unwrap();
    second.generate_dated_report(&pokemon(), "March 04, 2025").unwrap();
    assert_eq!(first.document, second.document);
    assert_eq!(first.sections(), second.sections());
}

#[test]
fn report_with_the_date_of_today_has_the_same_sections() {
    let mut manager = PageManager::new(FontSet::uniform(500)).unwrap();
    manager.generate_report(&pokemon()).unwrap();
    let names: Vec<String> = manager.sections().into_iter().map(|(name, _)| name).collect();
    assert_eq!(
        names,
        vec![
            "Data Types Overview",
            "Descriptive Analysis",
            "Missing Values Analysis",
            "Glossary",
            "Table of Contents"
        ]
    );
    assert!(texts_of(&manager.document.pages[0])[5].starts_with("Generated on: "));
}

#[test]
fn report_fails_where_statistics_are_missing() {
    let mut info = pokemon();
    info.descriptive_analysis.column_stats.rows[0].truncate(25);
    let mut manager = PageManager::new(FontSet::uniform(500)).unwrap();
    assert_eq!(
        manager.generate_dated_report(&info, "March 04, 2025"),
        Err(LeadsError::DescriptiveAnalysis(DescriptiveError::InvalidIndex(
            "attempted to index FeatureStats Vec with index 25".to_owned()
        )))
    );
}

#[test]
fn descriptive_page_sets_the_statistics_in_two_columns() {
    let mut manager = PageManager::new(FontSet::uniform(500)).unwrap();
    manager.new_page().unwrap();
    manager.create_descriptive_analysis_page(&analysis(&["hp", "speed"], 800)).unwrap();
    assert_eq!(manager.page_count(), 2);
    let page = &manager.document.pages[1];
    let texts = texts_of(page);
    assert_eq!(&texts[..3], &["Descriptive Analysis", "Shape:", "800 rows, 3 columns"]);
    // "Shape:" is 60476 millionths wide; the shape follows 5000 behind it.
    match &page.objects[2] {
        PageObject::Text { x, y, .. } => {
            assert_eq!(*x, 165_476 * 595_276 / 1_000_000);
            assert_eq!(*y, 860_000 * 841_890 / 1_000_000);
        }
        other => panic!("no shape: {:?}", other),
    }
    let line = 19_253;
    let header = 16_629;
    let mut y = 860_000 - 2 * line;
    let mut at = 3;
    for name in ["hp", "speed"] {
        assert_eq!(
            page.objects[at],
            PageObject::Text {
                text: name.to_owned(),
                font: Font::Bold,
                size: 14_000,
                x: 59_527,
                y: y * 841_890 / 1_000_000,
                color: leads::report::document::Color { red: 0, green: 0, blue: 0, alpha: 255 },
            }
        );
        y -= header;
        assert_eq!(
            page.objects[at + 1],
            PageObject::Line {
                x1: 59_527,
                y1: (y + 5_000) * 841_890 / 1_000_000,
                x2: 535_748,
                y2: (y + 5_000) * 841_890 / 1_000_000,
                width: 500
            }
        );
        y -= line;
        at += 2;
        for statistic in 1..13 {
            let left = statistic % 2 == 1;
            let x = if left { 150_000 } else { 550_000 };
            let value = if statistic == 12 {
                "800".to_owned()
            } else {
                format!("{}.{}", statistic, name.len())
            };
            match (&page.objects[at], &page.objects[at + 1]) {
                (
                    PageObject::Text { text: label, font: Font::Bold, x: label_x, y: label_y, .. },
                    PageObject::Text { text, font: Font::Regular, x: value_x, y: value_y, .. },
                ) => {
                    assert_eq!(label, &format!("{}:", STATISTICS[statistic]));
                    assert_eq!(text, &value);
                    assert_eq!(*label_x, x * 595_276 / 1_000_000);
                    assert_eq!(*value_x, (x + 200_000) * 595_276 / 1_000_000);
                    assert_eq!(*label_y, y * 841_890 / 1_000_000);
                    assert_eq!(*value_y, y * 841_890 / 1_000_000);
                }
                other => panic!("no statistic: {:?}", other),
            }
            if !left {
                y -= line;
            }
            at += 2;
        }
        y -= line * 3 / 2;
    }
    assert_eq!(at, page.objects.len());
    assert_eq!(manager.sections(), vec![("Descriptive Analysis".to_owned(), 1)]);
}

#[test]
fn descriptive_page_never_splits_a_pair_of_statistics() {
    let names: Vec<String> = (0..40).map(|i| format!("feature_{}", i)).collect();
    let features: Vec<&str> = names.iter().map(|name| name.as_str()).collect();
    let geometry = PageGeometry { width: 595_276, height: 300_000 };
    let mut manager = PageManager::with_geometry(FontSet::uniform(500), geometry);
    manager.new_page().unwrap();
    manager.create_descriptive_analysis_page(&analysis(&features, 10)).unwrap();
    assert!(manager.page_count() > 10);
    let mut labels = 0;
    for page in &manager.document.pages[1..] {
        let texts: Vec<(String, i64, i64)> = page
            .objects
            .iter()
            .filter_map(|object| match object {
                PageObject::Text { text, x, y, size: 12_000, .. }
                    if text != "Shape:" && !text.ends_with("columns") =>
                {
                    Some((text.clone(), *x, *y))
                }
                _ => None,
            })
            .collect();
        assert_eq!(texts.len() % 4, 0);
        for pair in texts.chunks(4) {
            assert!(pair[0].0.ends_with(':') && pair[2].0.ends_with(':'));
            assert!(pair[0].2 == pair[1].2 && pair[1].2 == pair[2].2 && pair[2].2 == pair[3].2);
            assert!(pair[0].1 < pair[2].1);
            assert!(pair[0].2 >= 100_000 * 300_000 / 1_000_000);
            labels += 2;
        }
    }
    assert_eq!(labels, 40 * 12);
}

#[test]
fn descriptive_page_fails_where_the_table_has_no_row() {
    let mut analysis = analysis(&["hp"], 800);
    analysis.column_stats.rows.clear();
    let mut manager = PageManager::new(FontSet::uniform(500)).unwrap();
    manager.new_page().unwrap();
    assert_eq!(
        manager.create_descriptive_analysis_page(&analysis),
        Err(LeadsError::DescriptiveAnalysis(DescriptiveError::Schema("No data".to_owned())))
    );
}

#[test]
fn report_that_is_given_up_records_no_table_of_contents() {
    // Two pages are left: one for the title page and one for the data types overview.
    let mut manager = PageManager::new(FontSet::uniform(500)).unwrap();
    for _ in 0..65_533 {
        manager.new_page().unwrap();
    }
    assert_eq!(
        manager.generate_dated_report(&pokemon(), "March 04, 2025"),
        Err(LeadsError::Report(leads::report::pdf::PdfError::PageLimit))
    );
    assert_eq!(manager.sections(), vec![("Data Types Overview".to_owned(), 65_534)]);
    assert_eq!(manager.page_count(), 65_535);
    // No page carries a folio.
    assert_eq!(texts_of(&manager.document.pages[65_534])[0], "Data Types Overview");
    assert_eq!(texts_of(&manager.document.pages[65_534]).last().unwrap(), "Numeric");
    assert!(manager.document.pages[1].objects.is_empty());
}

#[test]
fn report_that_fails_on_its_statistics_keeps_the_sections_started() {
    let mut info = pokemon();
    info.descriptive_analysis.column_stats.rows.clear();
    let mut manager = PageManager::new(FontSet::uniform(500)).unwrap();
    assert_eq!(
        manager.generate_dated_report(&info, "March 04, 2025"),
        Err(LeadsError::DescriptiveAnalysis(DescriptiveError::Schema("No data".to_owned())))
    );
    assert_eq!(
        manager.sections(),
        vec![("Data Types Overview".to_owned(), 1), ("Descriptive Analysis".to_owned(), 2)]
    );
    assert_eq!(manager.page_count(), 3);
}
