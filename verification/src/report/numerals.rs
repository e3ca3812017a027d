//! Number rendering for folios and table cells: decimal digits and roman numerals.

use vstd::prelude::*;
use vstd::string::*;

verus! {

/// The decimal digit character for `d`, which is below ten.
pub open spec fn digit_char(d: nat) -> char {
    if d == 0 {
        '0'
    } else if d == 1 {
        '1'
    } else if d == 2 {
        '2'
    } else if d == 3 {
        '3'
    } else if d == 4 {
        '4'
    } else if d == 5 {
        '5'
    } else if d == 6 {
        '6'
    } else if d == 7 {
        '7'
    } else if d == 8 {
        '8'
    } else {
        '9'
    }
}

/// The decimal notation of `n`, without sign or leading zeros; zero is "0".
pub open spec fn decimal_text(n: nat) -> Seq<char>
    decreases n,
{
    if n < 10 {
        seq![digit_char(n)]
    } else {
        decimal_text(n / 10).push(digit_char(n % 10))
    }
}

fn digit_str(d: u128) -> (s: &'static str)
    requires
        d < 10,
    ensures
        s@ == seq![digit_char(d as nat)],
{
    proof {
        reveal_strlit("0");
        reveal_strlit("1");
        reveal_strlit("2");
        reveal_strlit("3");
        reveal_strlit("4");
        reveal_strlit("5");
        reveal_strlit("6");
        reveal_strlit("7");
        reveal_strlit("8");
        reveal_strlit("9");
    }
    let s = if d == 0 {
        "0"
    } else if d == 1 {
        "1"
    } else if d == 2 {
        "2"
    } else if d == 3 {
        "3"
    } else if d == 4 {
        "4"
    } else if d == 5 {
        "5"
    } else if d == 6 {
        "6"
    } else if d == 7 {
        "7"
    } else if d == 8 {
        "8"
    } else {
        "9"
    };
    assert(s@ =~= seq![digit_char(d as nat)]);
    s
}

/// Renders `n` in decimal notation.
pub fn decimal(n: u128) -> (text: String)
    ensures
        text@ == decimal_text(n as nat),
    decreases n,
{
    if n < 10 {
        String::from_str(digit_str(n))
    } else {
        let mut text = decimal(n / 10);
        text.append(digit_str(n % 10));
        assert(text@ =~= decimal_text(n as nat));
        text
    }
}

/// How many symbols the roman notation draws on.
pub const ROMAN_SYMBOLS: usize = 13;

/// The value of the `i`-th roman symbol, from the largest (M) down to the smallest (I), the
/// subtractive pairs in their places.
pub open spec fn roman_value(i: int) -> nat {
    if i == 0 {
        1000
    } else if i == 1 {
        900
    } else if i == 2 {
        500
    } else if i == 3 {
        400
    } else if i == 4 {
        100
    } else if i == 5 {
        90
    } else if i == 6 {
        50
    } else if i == 7 {
        40
    } else if i == 8 {
        10
    } else if i == 9 {
        9
    } else if i == 10 {
        5
    } else if i == 11 {
        4
    } else {
        1
    }
}

/// The letters of the `i`-th roman symbol.
pub open spec fn roman_symbol(i: int) -> Seq<char> {
    if i == 0 {
        "M"@
    } else if i == 1 {
        "CM"@
    } else if i == 2 {
        "D"@
    } else if i == 3 {
        "CD"@
    } else if i == 4 {
        "C"@
    } else if i == 5 {
        "XC"@
    } else if i == 6 {
        "L"@
    } else if i == 7 {
        "XL"@
    } else if i == 8 {
        "X"@
    } else if i == 9 {
        "IX"@
    } else if i == 10 {
        "V"@
    } else if i == 11 {
        "IV"@
    } else {
        "I"@
    }
}

/// The roman notation of `n` that uses only the symbols from the `i`-th on: the largest of
/// them that fits is written and taken off, until nothing is left.
pub open spec fn roman_from(n: nat, i: int) -> Seq<char>
    decreases ROMAN_SYMBOLS - i, n,
{
    if i < 0 || i >= ROMAN_SYMBOLS {
        Seq::empty()
    } else if n >= roman_value(i) {
        roman_symbol(i) + roman_from((n - roman_value(i)) as nat, i)
    } else {
        roman_from(n, i + 1)
    }
}

/// The roman numeral of `n` in subtractive notation; zero has the empty numeral.
pub open spec fn roman_text(n: nat) -> Seq<char> {
    roman_from(n, 0)
}

fn roman_value_at(i: usize) -> (v: u32)
    requires
        i < ROMAN_SYMBOLS,
    ensures
        v == roman_value(i as int),
        v >= 1,
{
    if i == 0 {
        1000
    } else if i == 1 {
        900
    } else if i == 2 {
        500
    } else if i == 3 {
        400
    } else if i == 4 {
        100
    } else if i == 5 {
        90
    } else if i == 6 {
        50
    } else if i == 7 {
        40
    } else if i == 8 {
        10
    } else if i == 9 {
        9
    } else if i == 10 {
        5
    } else if i == 11 {
        4
    } else {
        1
    }
}

fn roman_symbol_at(i: usize) -> (s: &'static str)
    requires
        i < ROMAN_SYMBOLS,
    ensures
        s@ == roman_symbol(i as int),
{
    if i == 0 {
        "M"
    } else if i == 1 {
        "CM"
    } else if i == 2 {
        "D"
    } else if i == 3 {
        "CD"
    } else if i == 4 {
        "C"
    } else if i == 5 {
        "XC"
    } else if i == 6 {
        "L"
    } else if i == 7 {
        "XL"
    } else if i == 8 {
        "X"
    } else if i == 9 {
        "IX"
    } else if i == 10 {
        "V"
    } else if i == 11 {
        "IV"
    } else {
        "I"
    }
}

/// Zero has the empty numeral, whatever symbols are drawn on.
pub proof fn lemma_roman_of_zero(i: int)
    ensures
        roman_from(0, i) == Seq::<char>::empty(),
    decreases ROMAN_SYMBOLS - i,
{
    if 0 <= i < ROMAN_SYMBOLS {
        lemma_roman_of_zero(i + 1);
    }
}

/// Converts a number to a roman numeral.
pub fn to_roman_numeral(num: u32) -> (numeral: String)
    ensures
        numeral@ == roman_text(num as nat),
        num == 0 ==> numeral@ == Seq::<char>::empty(),
{
    proof {
        lemma_roman_of_zero(0);
    }
    let mut result = String::new();
    let mut remaining: u32 = num;
    let mut i: usize = 0;
    while i < ROMAN_SYMBOLS
        invariant
            i <= ROMAN_SYMBOLS,
            result@ + roman_from(remaining as nat, i as int) == roman_text(num as nat),
        decreases ROMAN_SYMBOLS - i,
    {
        let value = roman_value_at(i);
        let symbol = roman_symbol_at(i);
        while remaining >= value
            invariant
                i < ROMAN_SYMBOLS,
                value == roman_value(i as int),
                value >= 1,
                symbol@ == roman_symbol(i as int),
                result@ + roman_from(remaining as nat, i as int) == roman_text(num as nat),
            decreases remaining,
        {
            proof {
                assert((result@ + symbol@) + roman_from((remaining - value) as nat, i as int)
                    =~= result@ + roman_from(remaining as nat, i as int));
            }
            result.append(symbol);
            remaining -= value;
        }
        i += 1;
    }
    assert(roman_from(remaining as nat, ROMAN_SYMBOLS as int) =~= Seq::<char>::empty());
    assert(result@ + Seq::<char>::empty() =~= result@);
    result
}

} // verus!
