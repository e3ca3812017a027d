use leads::report::numerals::{decimal, to_roman_numeral};

#[test]
fn roman_numerals_follow_subtractive_notation() {
    let cases: [(u32, &str); 9] = [
        (1, "I"),
        (4, "IV"),
        (9, "IX"),
        (40, "XL"),
        (90, "XC"),
        (400, "CD"),
        (900, "CM"),
        (1994, "MCMXCIV"),
        (3999, "MMMCMXCIX"),
    ];
    for (number, numeral) in cases {
        assert_eq!(to_roman_numeral(number), numeral);
    }
}

#[test]
fn roman_numeral_of_zero_is_empty() {
    assert_eq!(to_roman_numeral(0), "");
}

#[test]
fn roman_numerals_beyond_the_classical_range_repeat_the_thousand() {
    assert_eq!(to_roman_numeral(4000), "MMMM");
    assert_eq!(to_roman_numeral(5008), "MMMMMVIII");
}

#[test]
fn roman_numerals_of_small_numbers() {
    let expected = ["I", "II", "III", "IV", "V", "VI", "VII", "VIII", "IX", "X", "XI", "XII"];
    for (index, numeral) in expected.iter().enumerate() {
        assert_eq!(to_roman_numeral(index as u32 + 1), *numeral);
    }
}

#[test]
fn decimal_renders_without_leading_zeros() {
    assert_eq!(decimal(0), "0");
    assert_eq!(decimal(7), "7");
    assert_eq!(decimal(10), "10");
    assert_eq!(decimal(1994), "1994");
    assert_eq!(decimal(18_446_744_073_709_551_615), "18446744073709551615");
    assert_eq!(
        decimal(340_282_366_920_938_463_463_374_607_431_768_211_455),
        "340282366920938463463374607431768211455"
    );
}
