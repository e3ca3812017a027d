use leads::report::fonts::{measure_width, FontMetrics, FontSet, MAX_WIDTH};
use leads::report::text::{is_whitespace, split_words};
use leads::report::units::PageGeometry;
use leads::report::wrap::wrap;

fn normalized(text: &str) -> String {
    text.split_whitespace().collect::<Vec<&str>>().join(" ")
}

#[test]
fn whitespace_is_the_unicode_property() {
    for code in 0u32..0x11_0000 {
        if let Some(c) = char::from_u32(code) {
            assert_eq!(is_whitespace(c), c.is_whitespace(), "U+{:04X}", code);
        }
    }
}

#[test]
fn split_words_drops_all_white_space() {
    assert_eq!(split_words("the quick  brown\tfox\n"), vec!["the", "quick", "brown", "fox"]);
    assert_eq!(split_words("  lead and trail  "), vec!["lead", "and", "trail"]);
    assert_eq!(split_words("one"), vec!["one"]);
    assert_eq!(split_words("thin\u{2009}space\u{3000}wide"), vec!["thin", "space", "wide"]);
}

#[test]
fn split_words_of_blank_text_is_empty() {
    assert_eq!(split_words(""), Vec::<String>::new());
    assert_eq!(split_words(" \t\r\n"), Vec::<String>::new());
}

#[test]
fn split_words_keeps_characters_beyond_ascii() {
    assert_eq!(split_words("naïve café über"), vec!["naïve", "café", "über"]);
}

#[test]
fn glyph_widths_come_from_the_table_or_the_default() {
    let mut widths = vec![0u16; 128];
    widths['i' as usize] = 278;
    widths['m' as usize] = 778;
    let metrics = FontMetrics { widths, default_width: 500 };
    assert_eq!(metrics.glyph('i'), 278);
    assert_eq!(metrics.glyph('m'), 778);
    assert_eq!(metrics.glyph(' '), 0);
    assert_eq!(metrics.glyph('é'), 500);
    assert_eq!(metrics.measure("mimi"), 2112);
    assert_eq!(metrics.measure("é"), 500);
    assert_eq!(metrics.measure(""), 0);
}

#[test]
fn text_width_is_a_fraction_of_the_page_width() {
    let metrics = FontMetrics::uniform(500);
    // 3 characters of half the font size each, at 12 pt, on an A4 page:
    // 1500 * 12000 * 1000000 / (1000 * 595276) = 30238.07..
    assert_eq!(measure_width(&metrics, "abc", 12_000, 595_276), 30_238);
    assert_eq!(measure_width(&metrics, "", 12_000, 595_276), 0);
    assert_eq!(measure_width(&metrics, "abc", 0, 595_276), 0);
    // one character as wide as the page
    assert_eq!(measure_width(&FontMetrics::uniform(1000), "M", 1_000, 1_000), 1_000_000);
}

#[test]
fn text_width_is_capped() {
    let metrics = FontMetrics::uniform(65_535);
    let text = "x".repeat(1000);
    assert_eq!(measure_width(&metrics, &text, u32::MAX, 1), MAX_WIDTH);
}

#[test]
fn wrap_fills_each_line_greedily() {
    let metrics = FontMetrics::uniform(500);
    // On a page 1000 pt wide, at 10 pt, a character takes 5000 millionths of the width.
    let lines = wrap("aaa bbb ccc ddd", 35_000, &metrics, 10_000, 1_000_000);
    assert_eq!(lines, vec!["aaa bbb", "ccc ddd"]);
    let lines = wrap("aaa bbb ccc ddd", 34_999, &metrics, 10_000, 1_000_000);
    assert_eq!(lines, vec!["aaa", "bbb", "ccc", "ddd"]);
    let lines = wrap("aaa bbb ccc ddd", 75_000, &metrics, 10_000, 1_000_000);
    assert_eq!(lines, vec!["aaa bbb ccc ddd"]);
    let lines = wrap("aaa bbb ccc ddd", 74_999, &metrics, 10_000, 1_000_000);
    assert_eq!(lines, vec!["aaa bbb ccc", "ddd"]);
}

#[test]
fn wrap_places_an_overlong_word_alone() {
    let metrics = FontMetrics::uniform(500);
    let lines = wrap("a incomprehensibilities b", 30_000, &metrics, 10_000, 1_000_000);
    assert_eq!(lines, vec!["a", "incomprehensibilities", "b"]);
    let lines = wrap("incomprehensibilities", 0, &metrics, 10_000, 1_000_000);
    assert_eq!(lines, vec!["incomprehensibilities"]);
    let lines = wrap("a b c", -1, &metrics, 10_000, 1_000_000);
    assert_eq!(lines, vec!["a", "b", "c"]);
}

#[test]
fn wrap_of_blank_text_has_no_lines() {
    let metrics = FontMetrics::uniform(500);
    assert_eq!(wrap("", 100_000, &metrics, 10_000, 1_000_000), Vec::<String>::new());
    assert_eq!(wrap("  \n ", 100_000, &metrics, 10_000, 1_000_000), Vec::<String>::new());
}

#[test]
fn wrapped_lines_rejoin_to_the_normalized_text() {
    let metrics = FontMetrics::uniform(500);
    let text = "  A measure of the 'tailedness' of the probability\tdistribution of a\n\nreal-valued random   variable. ";
    for available in [0i64, 5_000, 40_000, 100_000, 333_333, 1_000_000] {
        let lines = wrap(text, available, &metrics, 10_000, 1_000_000);
        assert_eq!(lines.join(" "), normalized(text));
        for line in &lines {
            let fits = measure_width(&metrics, line, 10_000, 1_000_000) <= available;
            let single = !line.contains(' ');
            assert!(fits || single, "{:?} at {}", line, available);
        }
    }
}

#[test]
fn uniform_font_set_has_three_equal_faces() {
    let fonts = FontSet::uniform(600);
    assert_eq!(fonts.regular.default_width, 600);
    assert_eq!(fonts.bold.default_width, 600);
    assert_eq!(fonts.italic.default_width, 600);
    assert!(fonts.regular.widths.is_empty());
}

#[test]
fn geometry_maps_fractions_to_absolute_units() {
    let a4 = PageGeometry::a4();
    assert_eq!((a4.width, a4.height), (595_276, 841_890));
    assert_eq!(a4.to_absolute(0, 0), (0, 0));
    assert_eq!(a4.to_absolute(1_000_000, 1_000_000), (595_276, 841_890));
    assert_eq!(a4.to_absolute(100_000, 900_000), (59_527, 757_701));
    assert_eq!(a4.to_absolute(-100_000, -900_000), (-59_527, -757_701));
    assert_eq!(a4.to_absolute(1, 1), (0, 0));
    // 12 pt on a page 841.89 pt high: 12000 * 1000000 / 841890 = 14253.6..
    assert_eq!(a4.height_fraction(12_000), 14_253);
    assert_eq!(a4.height_fraction(0), 0);
}
