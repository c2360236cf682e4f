use lexer::numeral::parse_i32;

fn parse(text: &str) -> Option<i32> {
    parse_i32(&String::from(text))
}

#[test]
fn plain_numbers() {
    assert_eq!(parse("0"), Some(0));
    assert_eq!(parse("7"), Some(7));
    assert_eq!(parse("10"), Some(10));
    assert_eq!(parse("42"), Some(42));
    assert_eq!(parse("123456789"), Some(123456789));
}

#[test]
fn signs() {
    assert_eq!(parse("+5"), Some(5));
    assert_eq!(parse("-5"), Some(-5));
    assert_eq!(parse("-0"), Some(0));
    assert_eq!(parse("+"), None);
    assert_eq!(parse("-"), None);
    assert_eq!(parse("+-5"), None);
    assert_eq!(parse("--5"), None);
    assert_eq!(parse("5-"), None);
}

#[test]
fn range_of_i32() {
    assert_eq!(parse("2147483647"), Some(i32::MAX));
    assert_eq!(parse("+2147483647"), Some(i32::MAX));
    assert_eq!(parse("2147483648"), None);
    assert_eq!(parse("-2147483648"), Some(i32::MIN));
    assert_eq!(parse("-2147483649"), None);
    assert_eq!(parse("99999999999999999999999999"), None);
    assert_eq!(parse("-99999999999999999999999999"), None);
}

#[test]
fn leading_zeros() {
    assert_eq!(parse("007"), Some(7));
    assert_eq!(parse("-007"), Some(-7));
    assert_eq!(parse("00000000000000000000000000012"), Some(12));
    assert_eq!(parse("00000000002147483648"), None);
}

#[test]
fn what_is_no_number() {
    assert_eq!(parse(""), None);
    assert_eq!(parse("10x"), None);
    assert_eq!(parse("x10"), None);
    assert_eq!(parse("1_000"), None);
    assert_eq!(parse(" 1"), None);
    assert_eq!(parse("1 "), None);
    assert_eq!(parse("1.5"), None);
    assert_eq!(parse("٣"), None);
    assert_eq!(parse("1٣"), None);
    assert_eq!(parse("é"), None);
}

#[test]
fn agrees_with_the_standard_parser() {
    let texts = [
        "", "0", "-0", "+0", "1", "-1", "+1", "12", "007", "2147483647", "2147483648",
        "-2147483648", "-2147483649", "4294967296", "18446744073709551616", "+", "-", "+-1",
        "-+1", "1+", "a", "1a", "a1", "_", "1_0", " 1", "1 ", "\t", "٣", "１２", "0x10", "1e3",
        "00000000000000000000001", "-00000000000000000000001", "21474836470", "999999999",
        "1000000000", "3000000000", "-3000000000",
    ];
    for text in texts {
        assert_eq!(parse(text), text.parse::<i32>().ok(), "on {:?}", text);
    }
    let mut n: i64 = -2147483700;
    while n <= 2147483700 {
        let text = n.to_string();
        assert_eq!(parse(&text), text.parse::<i32>().ok(), "on {:?}", text);
        n += 7919 * 31;
    }
}
