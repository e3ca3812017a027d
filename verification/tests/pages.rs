use leads::data::base::ColumnType;
use leads::data::missing_values::MissingValueAnalysis;
use leads::report::document::{Color, Page, PageObject};
use leads::report::fonts::{Font, FontSet};
use leads::report::glossary::{DataType, Glossary, DEFINITIONS, TERMS};
use leads::report::pdf::{PageManager, PdfError};
use leads::report::units::PageGeometry;
use leads::LeadsError;

const BLACK: Color = Color { red: 0, green: 0, blue: 0, alpha: 255 };
const STRIPE: Color = Color { red: 240, green: 240, blue: 240, alpha: 255 };

fn a4(width: u16) -> PageManager {
    let mut manager = PageManager::new(FontSet::uniform(width)).unwrap();
    manager.new_page().unwrap();
    manager
}

fn texts_on(page: &Page) -> Vec<(String, i64, i64)> {
    page.objects
        .iter()
        .filter_map(|object| match object {
            PageObject::Text { text, x, y, .. } => Some((text.clone(), *x, *y)),
            _ => None,
        })
        .collect()
}

fn x_of(fraction: i64) -> i64 {
    fraction * 595_276 / 1_000_000
}

fn y_of(fraction: i64) -> i64 {
    fraction * 841_890 / 1_000_000
}

fn column(name: &str, data_type: DataType, type_text: &str) -> ColumnType {
    ColumnType { name: name.to_owned(), data_type, type_text: type_text.to_owned() }
}

#[test]
fn new_manager_is_an_empty_a4_document() {
    let manager = PageManager::new(FontSet::uniform(500)).unwrap();
    assert_eq!(manager.page_count(), 0);
    assert_eq!(manager.current_page, 0);
    assert_eq!(manager.sections(), Vec::<(String, u32)>::new());
    assert_eq!(manager.document.geometry, PageGeometry { width: 595_276, height: 841_890 });
}

#[test]
fn new_page_becomes_the_current_page() {
    let mut manager = PageManager::new(FontSet::uniform(500)).unwrap();
    manager.new_page().unwrap();
    assert_eq!((manager.page_count(), manager.current_page), (1, 0));
    manager.new_page().unwrap();
    assert_eq!((manager.page_count(), manager.current_page), (2, 1));
}

#[test]
fn inserted_page_shifts_the_pages_behind_it() {
    let mut manager = PageManager::new(FontSet::uniform(500)).unwrap();
    for name in ["a", "b", "c"] {
        manager.new_page().unwrap();
        manager.add_text(name, Font::Regular, 12_000, 0, 0, None);
    }
    manager.insert_page_at(1).unwrap();
    assert_eq!(manager.current_page, 1);
    let names: Vec<Vec<String>> = manager
        .document
        .pages
        .iter()
        .map(|page| texts_on(page).into_iter().map(|(text, _, _)| text).collect())
        .collect();
    assert_eq!(names, vec![vec!["a"], vec![], vec!["b"], vec!["c"]]);
    manager.add_text("new", Font::Regular, 12_000, 0, 0, None);
    assert_eq!(texts_on(&manager.document.pages[1])[0].0, "new");
    manager.insert_page_at(4).unwrap();
    assert_eq!((manager.page_count(), manager.current_page), (5, 4));
}

#[test]
fn primitives_place_objects_at_converted_positions() {
    let mut manager = a4(500);
    manager.add_text("hello", Font::Italic, 14_000, 100_000, 900_000, None);
    manager.add_text("red", Font::Bold, 10_000, 250_000, 500_000, Some(Color::new(255, 0, 0, 128)));
    manager.add_line(100_000, 800_000, 900_000, 800_000, 2_000);
    manager.add_rectangle(100_000, 600_000, 900_000, 500_000, STRIPE);
    manager.add_image("plots/missing_values_heatmap.png", 100_000, 100_000, 800_000, 400_000);
    let expected = vec![
        PageObject::Text {
            text: "hello".to_owned(),
            font: Font::Italic,
            size: 14_000,
            x: 59_527,
            y: 757_701,
            color: BLACK,
        },
        PageObject::Text {
            text: "red".to_owned(),
            font: Font::Bold,
            size: 10_000,
            x: 148_819,
            y: 420_945,
            color: Color { red: 255, green: 0, blue: 0, alpha: 128 },
        },
        PageObject::Line { x1: 59_527, y1: 673_512, x2: 535_748, y2: 673_512, width: 2_000 },
        PageObject::Rectangle { x1: 59_527, y1: 505_134, x2: 535_748, y2: 420_945, color: STRIPE },
        PageObject::Image {
            path: "plots/missing_values_heatmap.png".to_owned(),
            x: 59_527,
            y: 84_189,
            width: 476_220,
            height: 336_756,
        },
    ];
    assert_eq!(manager.document.pages[0].objects, expected);
}

#[test]
fn need_new_page_compares_with_the_bottom_margin() {
    let manager = a4(500);
    assert!(!manager.need_new_page(500_000, 100_000));
    assert!(!manager.need_new_page(200_000, 100_000));
    assert!(manager.need_new_page(199_999, 100_000));
    assert!(manager.need_new_page(0, 0));
    assert!(!manager.need_new_page(100_000, 0));
    assert!(manager.need_new_page(i64::MIN, i64::MAX));
    assert!(!manager.need_new_page(i64::MAX, i64::MIN));
}

#[test]
fn make_room_breaks_the_page_before_content_that_does_not_fit() {
    let mut manager = a4(500);
    assert_eq!(manager.make_room(200_000, 100_000), Ok(200_000));
    assert_eq!(manager.page_count(), 1);
    assert_eq!(manager.make_room(199_999, 100_000), Ok(900_000));
    assert_eq!((manager.page_count(), manager.current_page), (2, 1));
}

#[test]
fn text_width_of_the_manager_uses_the_face() {
    let mut fonts = FontSet::uniform(500);
    fonts.bold.default_width = 600;
    let manager = PageManager::new(fonts).unwrap();
    assert_eq!(manager.get_text_width("Shape:", Font::Regular, 12_000), 60_476);
    assert_eq!(manager.get_text_width("Shape:", Font::Bold, 12_000), 72_571);
}

#[test]
fn wrap_text_of_the_manager_wraps_between_offset_and_limit() {
    let manager = PageManager::new(FontSet::uniform(1500)).unwrap();
    let lines = manager.wrap_text("Other or unknown", 700_000, 900_000, Font::Regular, 12_000);
    assert_eq!(lines, vec!["Other", "or", "unknown"]);
    let manager = PageManager::new(FontSet::uniform(500)).unwrap();
    let lines = manager.wrap_text("Other or unknown", 700_000, 900_000, Font::Regular, 12_000);
    assert_eq!(lines, vec!["Other or unknown"]);
}

#[test]
fn start_section_records_the_index_of_its_page() {
    let mut manager = a4(500);
    manager.start_section("First").unwrap();
    manager.new_page().unwrap();
    manager.start_section("Second").unwrap();
    assert_eq!(manager.sections(), vec![("First".to_owned(), 1), ("Second".to_owned(), 3)]);
    assert_eq!(texts_on(&manager.document.pages[3]), vec![("Second".to_owned(), 59_527, 757_701)]);
}

#[test]
fn missing_values_rows_are_never_split() {
    let counts: Vec<(String, u64)> = (0..100).map(|i| (format!("column_{}", i), i)).collect();
    let analysis = MissingValueAnalysis::new(counts, 1000).unwrap();
    let mut manager = a4(500);
    manager.create_missing_values_page(&analysis).unwrap();
    // The title page and four pages of the table: 28 rows, then 32, 32 and 8.
    assert_eq!(manager.page_count(), 5);
    let rows_on = |index: usize, skip: usize| -> Vec<Vec<(String, i64, i64)>> {
        let texts = texts_on(&manager.document.pages[index]);
        assert_eq!((texts.len() - skip) % 3, 0, "a row is split on page {}", index);
        texts[skip..].chunks(3).map(|row| row.to_vec()).collect()
    };
    let pages = [rows_on(1, 4), rows_on(2, 0), rows_on(3, 0), rows_on(4, 0)];
    assert_eq!(pages.iter().map(|rows| rows.len()).collect::<Vec<usize>>(), vec![28, 32, 32, 8]);
    let mut number = 0;
    for rows in &pages {
        for row in rows {
            assert_eq!(row[0].0, format!("column_{}", number));
            assert_eq!(row[1].0, format!("{}", number));
            assert_eq!(row[2].0, format!("{:.2}%", number as f64 / 10.0));
            assert_eq!(
                (row[0].1, row[1].1, row[2].1),
                (x_of(100_000), x_of(400_000), x_of(700_000))
            );
            assert!(row[0].2 == row[1].2 && row[1].2 == row[2].2);
            // The whole line lies above the bottom margin.
            assert!(row[0].2 >= y_of(100_000 + 24_253));
            number += 1;
        }
    }
    assert_eq!(pages[0][0][0].2, y_of(850_000 - 2 * 24_253));
    assert_eq!(pages[0][1][0].2, y_of(850_000 - 3 * 24_253));
    assert_eq!(pages[1][0][0].2, y_of(900_000));
    assert_eq!(manager.sections(), vec![("Missing Values Analysis".to_owned(), 1)]);
}

#[test]
fn missing_values_page_has_headers_and_a_rule() {
    let analysis = MissingValueAnalysis::new(vec![("age".to_owned(), 3)], 12).unwrap();
    let mut manager = a4(500);
    manager.create_missing_values_page(&analysis).unwrap();
    let page = &manager.document.pages[1];
    let texts: Vec<String> = texts_on(page).into_iter().map(|(text, _, _)| text).collect();
    assert_eq!(
        texts,
        vec![
            "Missing Values Analysis",
            "Feature",
            "Missing Count",
            "Missing Percentage",
            "age",
            "3",
            "25.00%"
        ]
    );
    assert_eq!(
        page.objects[4],
        PageObject::Line {
            x1: 59_527,
            y1: y_of(830_000),
            x2: 535_748,
            y2: y_of(830_000),
            width: 1_000
        }
    );
    match &page.objects[0] {
        PageObject::Text { font, size, .. } => assert_eq!((*font, *size), (Font::Bold, 24_000)),
        other => panic!("no header: {:?}", other),
    }
}

#[test]
fn data_types_rows_are_striped_across_page_breaks() {
    let columns: Vec<ColumnType> =
        (0..20).map(|i| column(&format!("c{}", i), DataType::Int64, "i64")).collect();
    let mut manager = a4(500);
    manager.create_data_types_page(&columns).unwrap();
    // Thirteen rows fit under the headers; the others go to a second page.
    assert_eq!(manager.page_count(), 3);
    let mut index = 0;
    for (page, skip) in [(1usize, 5usize), (2, 0)] {
        let objects = &manager.document.pages[page].objects[skip..];
        let mut at = 0;
        while at < objects.len() {
            if index % 2 == 0 {
                match &objects[at] {
                    PageObject::Rectangle { color, x1, x2, .. } => {
                        assert_eq!(*color, STRIPE);
                        assert_eq!((*x1, *x2), (x_of(100_000), x_of(900_000)));
                    }
                    other => panic!("row {} has no stripe: {:?}", index, other),
                }
                at += 1;
            }
            let row: Vec<String> = objects[at..at + 3]
                .iter()
                .map(|object| match object {
                    PageObject::Text { text, .. } => text.clone(),
                    other => panic!("row {} is broken: {:?}", index, other),
                })
                .collect();
            assert_eq!(row, vec![format!("c{}", index), "i64".to_owned(), "Numeric".to_owned()]);
            at += 3;
            index += 1;
        }
        if page == 1 {
            assert_eq!(index, 13);
        }
    }
    assert_eq!(index, 20);
    // Row 13 opens the second page and is not striped.
    assert!(matches!(manager.document.pages[2].objects[0], PageObject::Text { .. }));
}

#[test]
fn data_types_page_wraps_the_category() {
    let columns = vec![
        column("when", DataType::Datetime, "datetime[μs]"),
        column("misc", DataType::Other, "struct[2]"),
        column("flag", DataType::Boolean, "bool"),
    ];
    let mut manager = a4(1500);
    manager.create_data_types_page(&columns).unwrap();
    let texts = texts_on(&manager.document.pages[1]);
    let height = 24_253;
    let first = 850_000 - 2 * height;
    let expected = vec![
        ("Data Types Overview".to_owned(), x_of(100_000), y_of(900_000)),
        ("Feature".to_owned(), x_of(100_000), y_of(850_000)),
        ("Data Type".to_owned(), x_of(400_000), y_of(850_000)),
        ("Category".to_owned(), x_of(700_000), y_of(850_000)),
        ("when".to_owned(), x_of(110_000), y_of(first)),
        ("datetime[μs]".to_owned(), x_of(400_000), y_of(first)),
        ("Date".to_owned(), x_of(700_000), y_of(first)),
        ("Time".to_owned(), x_of(700_000), y_of(first - height)),
        ("misc".to_owned(), x_of(110_000), y_of(first - 3 * height)),
        ("struct[2]".to_owned(), x_of(400_000), y_of(first - 3 * height)),
        ("Other".to_owned(), x_of(700_000), y_of(first - 3 * height)),
        ("or".to_owned(), x_of(700_000), y_of(first - 4 * height)),
        ("unknown".to_owned(), x_of(700_000), y_of(first - 5 * height)),
        ("flag".to_owned(), x_of(110_000), y_of(first - 7 * height)),
        ("bool".to_owned(), x_of(400_000), y_of(first - 7 * height)),
        ("Boolean".to_owned(), x_of(700_000), y_of(first - 7 * height)),
    ];
    assert_eq!(texts, expected);
    // The rule lies half a line below the headers.
    assert_eq!(
        manager.document.pages[1].objects[4],
        PageObject::Line {
            x1: x_of(100_000),
            y1: y_of(850_000 - height / 2),
            x2: x_of(900_000),
            y2: y_of(850_000 - height / 2),
            width: 1_000
        }
    );
    // The stripe of the first row reaches a line above and a line below it.
    assert_eq!(
        manager.document.pages[1].objects[5],
        PageObject::Rectangle {
            x1: x_of(100_000),
            y1: y_of(first + height),
            x2: x_of(900_000),
            y2: y_of(first - height),
            color: STRIPE
        }
    );
}

#[test]
fn glossary_page_lists_every_term_with_its_definition() {
    let mut manager = a4(500);
    manager.create_glossary_page().unwrap();
    assert_eq!(manager.sections(), vec![("Glossary".to_owned(), 1)]);
    let mut terms: Vec<String> = Vec::new();
    let mut words: Vec<String> = Vec::new();
    for page in &manager.document.pages[1..] {
        for object in &page.objects {
            match object {
                PageObject::Text { text, font: Font::Bold, size: 12_000, x, y, .. } => {
                    assert_eq!(*x, x_of(100_000));
                    assert!(*y >= y_of(100_000));
                    terms.push(text.clone());
                }
                PageObject::Text { text, font: Font::Regular, size: 10_000, x, y, .. } => {
                    assert_eq!(*x, x_of(150_000));
                    assert!(*y >= y_of(100_000));
                    // 89 characters of 8399.4 millionths fit into three quarters of the width.
                    assert!(text.chars().count() <= 89);
                    words.extend(text.split(' ').map(|word| word.to_owned()));
                }
                PageObject::Text { text, size: 24_000, .. } => assert_eq!(text, "Glossary"),
                other => panic!("unexpected: {:?}", other),
            }
        }
    }
    assert_eq!(terms, TERMS.to_vec());
    let expected: Vec<String> = DEFINITIONS
        .iter()
        .flat_map(|definition| definition.split_whitespace())
        .map(|word| word.to_owned())
        .collect();
    assert_eq!(words, expected);
}

#[test]
fn glossary_breaks_pages_on_a_small_page() {
    let geometry = PageGeometry { width: 595_276, height: 200_000 };
    let mut manager = PageManager::with_geometry(FontSet::uniform(500), geometry);
    manager.new_page().unwrap();
    manager.create_glossary_page().unwrap();
    assert!(manager.page_count() > 3);
    // Every page of the glossary but the last is filled down to the margin and no further.
    for page in &manager.document.pages[1..] {
        assert!(!page.objects.is_empty());
        for (_, _, y) in texts_on(page) {
            assert!(y >= 100_000 * 200_000 / 1_000_000);
        }
    }
}

#[test]
fn glossary_holds_fifteen_terms() {
    let glossary = Glossary::new();
    assert_eq!(glossary.terms.len(), 15);
    assert_eq!(glossary.terms, TERMS);
    assert_eq!(glossary.definitions, DEFINITIONS);
    assert_eq!(glossary.terms[0], "bool");
    assert_eq!(glossary.definitions[0], "A boolean value, either true or false.");
    assert_eq!(glossary.terms[14], "str");
    assert_eq!(glossary.definitions[14], "A string, or text value.");
}

#[test]
fn title_page_holds_title_date_and_version() {
    let mut manager = PageManager::new(FontSet::uniform(500)).unwrap();
    manager.create_dated_title_page("pokemon", "March 04, 2025").unwrap();
    assert_eq!(manager.page_count(), 1);
    let texts = texts_on(&manager.document.pages[0]);
    let expected = vec![
        ("Exploratory Data".to_owned(), x_of(100_000), y_of(900_000)),
        ("Analysis Report".to_owned(), x_of(100_000), y_of(830_000)),
        ("Dataset: pokemon".to_owned(), x_of(100_000), y_of(750_000)),
        (
            "This report provides a comprehensive exploratory analysis of the dataset,".to_owned(),
            x_of(100_000),
            y_of(650_000),
        ),
        (
            "including statistical summaries, outliers, visualizations, and key insights.".to_owned(),
            x_of(100_000),
            y_of(620_000),
        ),
        ("Generated on: March 04, 2025".to_owned(), x_of(100_000), y_of(200_000)),
        ("LEADS version: 0.0.1".to_owned(), x_of(100_000), y_of(170_000)),
    ];
    assert_eq!(texts, expected);
    assert_eq!(
        manager.document.pages[0].objects[2],
        PageObject::Line {
            x1: x_of(100_000),
            y1: y_of(800_000),
            x2: x_of(900_000),
            y2: y_of(800_000),
            width: 2_000
        }
    );
    assert_eq!(manager.sections(), Vec::<(String, u32)>::new());
}

#[test]
fn title_page_bears_the_date_of_today() {
    let mut manager = PageManager::new(FontSet::uniform(500)).unwrap();
    manager.create_title_page("pokemon").unwrap();
    let texts = texts_on(&manager.document.pages[0]);
    let date = texts[5].0.strip_prefix("Generated on: ").unwrap().to_owned();
    // The name of a month, the day in two digits, a comma and the year.
    let parts: Vec<&str> = date.split(' ').collect();
    assert_eq!(parts.len(), 3);
    let months = [
        "January", "February", "March", "April", "May", "June", "July", "August", "September",
        "October", "November", "December",
    ];
    assert!(months.contains(&parts[0]));
    assert_eq!(parts[1].len(), 3);
    assert!(parts[1].ends_with(','));
    assert!(parts[2].parse::<u32>().unwrap() >= 2024);
}

#[test]
fn sections_fail_where_the_document_is_full() {
    let mut manager = PageManager::new(FontSet::uniform(500)).unwrap();
    for _ in 0..65_535 {
        manager.new_page().unwrap();
    }
    let analysis = MissingValueAnalysis::new(Vec::new(), 1).unwrap();
    assert_eq!(manager.create_missing_values_page(&analysis), Err(PdfError::PageLimit));
    assert_eq!(manager.create_glossary_page(), Err(PdfError::PageLimit));
    assert_eq!(manager.create_data_types_page(&Vec::new()), Err(PdfError::PageLimit));
    assert_eq!(manager.start_section("late"), Err(PdfError::PageLimit));
    assert_eq!(
        manager.create_dated_title_page("late", "never"),
        Err(LeadsError::Report(PdfError::PageLimit))
    );
    assert_eq!(manager.make_room(0, 1), Err(PdfError::PageLimit));
    assert_eq!(manager.sections(), Vec::<(String, u32)>::new());
}
