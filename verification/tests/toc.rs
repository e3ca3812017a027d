use leads::report::document::{Page, PageObject};
use leads::report::fonts::{Font, FontSet};
use leads::report::pdf::{PageManager, PdfError};
use leads::report::units::PageGeometry;

fn texts_of(page: &Page) -> Vec<String> {
    page.objects
        .iter()
        .filter_map(|object| match object {
            PageObject::Text { text, .. } => Some(text.clone()),
            _ => None,
        })
        .collect()
}

fn body_of_ten_pages(height: u32) -> PageManager {
    let geometry = PageGeometry { width: 595_276, height };
    let mut manager = PageManager::with_geometry(FontSet::uniform(500), geometry);
    for index in 0..10 {
        manager.new_page().unwrap();
        manager.add_text(&format!("page {}", index), Font::Regular, 12_000, 100_000, 500_000, None);
    }
    manager
}

fn record_five(manager: &mut PageManager) {
    manager.record_section("Alpha", 2);
    manager.record_section("Beta", 3);
    manager.record_section("Gamma", 5);
    manager.record_section("Delta", 8);
    manager.record_section("Epsilon", 8);
}

/// The page numbers shown by the rows of a page of the table: the text after each name.
fn shown_numbers(page: &Page, names: &[&str]) -> Vec<String> {
    let texts = texts_of(page);
    names
        .iter()
        .map(|name| {
            let at = texts.iter().position(|text| text == name).unwrap();
            texts[at + 1].clone()
        })
        .collect()
}

#[test]
fn toc_on_one_page_shows_each_recorded_page_plus_one() {
    let mut manager = body_of_ten_pages(841_890);
    record_five(&mut manager);
    assert_eq!(manager.create_table_of_contents(), Ok(1));
    assert_eq!(manager.page_count(), 11);
    let toc = &manager.document.pages[1];
    assert_eq!(texts_of(toc)[0], "Table of Contents");
    assert_eq!(
        shown_numbers(toc, &["Alpha", "Beta", "Gamma", "Delta", "Epsilon"]),
        vec!["3", "4", "6", "9", "9"]
    );
}

#[test]
fn toc_moves_every_record_by_the_pages_inserted() {
    let mut manager = body_of_ten_pages(841_890);
    record_five(&mut manager);
    manager.create_table_of_contents().unwrap();
    let expected: Vec<(String, u32)> = vec![
        ("Alpha".to_owned(), 3),
        ("Beta".to_owned(), 4),
        ("Gamma".to_owned(), 6),
        ("Delta".to_owned(), 9),
        ("Epsilon".to_owned(), 9),
        ("Table of Contents".to_owned(), 1),
    ];
    assert_eq!(manager.sections(), expected);
}

#[test]
fn toc_sixth_row_on_a_second_page_shows_plus_two() {
    // On a page 90 pt high a line takes 138333 millionths, and five rows fill the first page.
    let mut manager = body_of_ten_pages(90_000);
    record_five(&mut manager);
    manager.record_section("Zeta", 9);
    assert_eq!(manager.create_table_of_contents(), Ok(2));
    assert_eq!(manager.page_count(), 12);
    let first = &manager.document.pages[1];
    let second = &manager.document.pages[2];
    assert_eq!(
        shown_numbers(first, &["Alpha", "Beta", "Gamma", "Delta", "Epsilon"]),
        vec!["3", "4", "6", "9", "9"]
    );
    assert_eq!(shown_numbers(second, &["Zeta"]), vec!["11"]);
    assert!(!texts_of(first).contains(&"Zeta".to_owned()));
    let expected: Vec<(String, u32)> = vec![
        ("Alpha".to_owned(), 4),
        ("Beta".to_owned(), 5),
        ("Gamma".to_owned(), 7),
        ("Delta".to_owned(), 10),
        ("Epsilon".to_owned(), 10),
        ("Zeta".to_owned(), 11),
        ("Table of Contents".to_owned(), 2),
    ];
    assert_eq!(manager.sections(), expected);
}

#[test]
fn toc_insertion_shifts_the_body_and_leaves_the_title_page() {
    let mut manager = body_of_ten_pages(90_000);
    let before: Vec<Page> = manager.document.pages.clone();
    record_five(&mut manager);
    manager.record_section("Zeta", 9);
    let added = manager.create_table_of_contents().unwrap() as usize;
    assert_eq!(added, 2);
    assert_eq!(manager.document.pages[0], before[0]);
    for index in 1..before.len() {
        let moved = &manager.document.pages[index + added];
        assert_eq!(moved.objects[..before[index].objects.len()], before[index].objects[..]);
        assert_eq!(moved.objects.len(), before[index].objects.len() + 1);
    }
}

#[test]
fn folios_are_roman_on_the_table_and_arabic_behind_it() {
    let mut manager = body_of_ten_pages(90_000);
    record_five(&mut manager);
    manager.record_section("Zeta", 9);
    manager.create_table_of_contents().unwrap();
    let folio = |index: usize| match manager.document.pages[index].objects.last().unwrap() {
        PageObject::Text { text, size, x, y, font, .. } => {
            assert_eq!((*x, *y), (565_512, 4_500));
            assert_eq!(*font, Font::Regular);
            (text.clone(), *size)
        }
        other => panic!("no folio: {:?}", other),
    };
    assert_eq!(folio(1), ("I".to_owned(), 10_000));
    assert_eq!(folio(2), ("II".to_owned(), 10_000));
    for index in 3..12 {
        assert_eq!(folio(index), (format!("{}", index - 2), 12_000));
    }
    // The title page carries no folio.
    assert_eq!(texts_of(&manager.document.pages[0]), vec!["page 0"]);
}

#[test]
fn toc_row_has_a_leader_that_fills_the_gap() {
    let mut manager = body_of_ten_pages(841_890);
    manager.record_section("Alpha", 2);
    manager.create_table_of_contents().unwrap();
    let texts = texts_of(&manager.document.pages[1]);
    assert_eq!(texts[1], "Alpha");
    assert_eq!(texts[2], "3");
    // A character takes 500 * 12000 * 1000000 / (1000 * 595276) = 10079.3.. millionths.
    // The gap runs from 100000 + 50396 + 10000 to 900000 - 10079 - 10000: 719525.
    // 71 full stops measure 715634, 72 measure 725713.
    assert_eq!(texts[3], ".".repeat(72));
    match &manager.document.pages[1].objects[3] {
        PageObject::Text { x, .. } => assert_eq!(*x, 160_396 * 595_276 / 1_000_000),
        other => panic!("no leader: {:?}", other),
    }
}

#[test]
fn toc_without_sections_is_one_page_with_a_title() {
    let mut manager = body_of_ten_pages(841_890);
    assert_eq!(manager.create_table_of_contents(), Ok(1));
    assert_eq!(texts_of(&manager.document.pages[1]), vec!["Table of Contents", "I"]);
    assert_eq!(manager.sections(), vec![("Table of Contents".to_owned(), 1)]);
    assert_eq!(manager.current_page, 1);
}

#[test]
fn toc_fails_where_the_document_is_full() {
    let mut manager = PageManager::with_geometry(FontSet::uniform(500), PageGeometry::a4());
    for _ in 0..65_535 {
        manager.new_page().unwrap();
    }
    assert_eq!(manager.new_page(), Err(PdfError::PageLimit));
    assert_eq!(manager.insert_page_at(1), Err(PdfError::PageLimit));
    assert_eq!(manager.create_table_of_contents(), Err(PdfError::PageLimit));
    assert_eq!(manager.page_count(), 65_535);
}

#[test]
fn recording_a_section_again_keeps_its_place() {
    let mut manager = body_of_ten_pages(841_890);
    manager.record_section("Alpha", 2);
    manager.record_section("Beta", 3);
    manager.record_section("Alpha", 7);
    assert_eq!(manager.sections(), vec![("Alpha".to_owned(), 7), ("Beta".to_owned(), 3)]);
}

#[test]
fn page_numbers_start_behind_the_recorded_table() {
    let mut manager = body_of_ten_pages(841_890);
    manager.record_section("Table of Contents", 3);
    manager.add_page_numbers();
    for index in 0..4 {
        assert_eq!(manager.document.pages[index].objects.len(), 1);
    }
    for index in 4..10 {
        assert_eq!(texts_of(&manager.document.pages[index])[1], format!("{}", index - 3));
    }
}

#[test]
fn page_numbers_without_a_table_start_at_the_second_page() {
    let mut manager = body_of_ten_pages(841_890);
    manager.add_page_numbers();
    assert_eq!(manager.document.pages[0].objects.len(), 1);
    for index in 1..10 {
        assert_eq!(texts_of(&manager.document.pages[index])[1], format!("{}", index));
    }
}

#[test]
fn dotted_line_of_a_face_without_a_full_stop_is_empty() {
    let mut fonts = FontSet::uniform(500);
    fonts.regular.widths = vec![0u16; 128];
    let mut manager = PageManager::with_geometry(fonts, PageGeometry::a4());
    manager.new_page().unwrap();
    manager.add_dotted_line(100_000, 900_000, 500_000);
    assert_eq!(texts_of(&manager.document.pages[0]), vec![""]);
}

#[test]
fn dotted_line_of_no_gap_is_empty() {
    let mut manager = PageManager::with_geometry(FontSet::uniform(500), PageGeometry::a4());
    manager.new_page().unwrap();
    manager.add_dotted_line(500_000, 500_000, 500_000);
    manager.add_dotted_line(500_000, 400_000, 500_000);
    manager.add_dotted_line(500_000, 500_001, 500_000);
    assert_eq!(texts_of(&manager.document.pages[0]), vec!["", "", "."]);
}

#[test]
fn toc_that_fails_on_its_second_page_leaves_the_records_and_the_body() {
    let geometry = PageGeometry { width: 595_276, height: 90_000 };
    let mut manager = PageManager::with_geometry(FontSet::uniform(500), geometry);
    for index in 0..65_534 {
        manager.new_page().unwrap();
        if index < 3 {
            manager.add_text(&format!("page {}", index), Font::Regular, 12_000, 0, 0, None);
        }
    }
    record_five(&mut manager);
    manager.record_section("Zeta", 9);
    let records = manager.sections();
    // The first page of the table fills the document; the sixth row asks for another.
    assert_eq!(manager.create_table_of_contents(), Err(PdfError::PageLimit));
    assert_eq!(manager.sections(), records);
    assert_eq!(manager.page_count(), 65_535);
    assert_eq!(texts_of(&manager.document.pages[0]), vec!["page 0"]);
    assert_eq!(texts_of(&manager.document.pages[1])[0], "Table of Contents");
    assert_eq!(texts_of(&manager.document.pages[2]), vec!["page 1"]);
    assert_eq!(texts_of(&manager.document.pages[3]), vec!["page 2"]);
}

#[test]
fn toc_that_fails_at_once_changes_nothing() {
    let mut manager = PageManager::with_geometry(FontSet::uniform(500), PageGeometry::a4());
    for _ in 0..65_535 {
        manager.new_page().unwrap();
    }
    manager.record_section("Alpha", 2);
    let pages = manager.document.pages.clone();
    assert_eq!(manager.create_table_of_contents(), Err(PdfError::PageLimit));
    assert_eq!(manager.sections(), vec![("Alpha".to_owned(), 2)]);
    assert_eq!(manager.document.pages, pages);
    assert_eq!(manager.current_page, 65_534);
}
