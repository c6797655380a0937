use diceroll::decimal::{parse_numeral, push_numeral, to_numeral};

#[test]
fn writes_numbers_in_decimal() {
    assert_eq!(to_numeral(0), "0");
    assert_eq!(to_numeral(7), "7");
    assert_eq!(to_numeral(10), "10");
    assert_eq!(to_numeral(907), "907");
    assert_eq!(to_numeral(1000), "1000");
    assert_eq!(to_numeral(18446744073709551615), "18446744073709551615");
    assert_eq!(to_numeral(u128::MAX), "340282366920938463463374607431768211455");
}

#[test]
fn appends_a_number_to_a_text() {
    let mut text = String::from("x=");
    push_numeral(&mut text, 42);
    assert_eq!(text, "x=42");
    push_numeral(&mut text, 0);
    assert_eq!(text, "x=420");
}

#[test]
fn reads_runs_of_ascii_digits() {
    assert_eq!(parse_numeral("0"), Some(0));
    assert_eq!(parse_numeral("7"), Some(7));
    assert_eq!(parse_numeral("007"), Some(7));
    assert_eq!(parse_numeral("1234567890"), Some(1234567890));
}

#[test]
fn reads_nothing_else() {
    assert_eq!(parse_numeral(""), None);
    assert_eq!(parse_numeral("+5"), None);
    assert_eq!(parse_numeral("-5"), None);
    assert_eq!(parse_numeral("5 "), None);
    assert_eq!(parse_numeral("12a"), None);
    assert_eq!(parse_numeral("a12"), None);
    assert_eq!(parse_numeral("\u{663}"), None);
    assert_eq!(parse_numeral("1\u{663}"), None);
}

#[test]
fn reads_up_to_the_largest_usize() {
    let max = usize::MAX.to_string();
    assert_eq!(parse_numeral(&max), Some(usize::MAX));
    assert_eq!(parse_numeral(&format!("000{}", max)), Some(usize::MAX));
    let mut digits: Vec<char> = max.chars().collect();
    let last = digits.len() - 1;
    digits[last] = char::from_digit(digits[last].to_digit(10).unwrap() + 1, 10).unwrap();
    let above: String = digits.into_iter().collect();
    assert_eq!(parse_numeral(&above), None);
    assert_eq!(parse_numeral(&format!("{}0", max)), None);
    assert_eq!(parse_numeral(&format!("{}a", max)), None);
    assert_eq!(parse_numeral("99999999999999999999999999999999999999999999"), None);
}

#[test]
fn reading_undoes_writing() {
    for n in [0usize, 1, 9, 10, 11, 99, 100, 12345, usize::MAX - 1, usize::MAX] {
        assert_eq!(parse_numeral(&to_numeral(n as u128)), Some(n));
    }
}
