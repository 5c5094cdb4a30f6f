use kyoku::text::{chars_of, decimal_string, hex_string, join_strings, parse_i32, split_at_char};

#[test]
fn decimal_string_renders_numbers() {
    assert_eq!(decimal_string(0), "0");
    assert_eq!(decimal_string(7), "7");
    assert_eq!(decimal_string(10), "10");
    assert_eq!(decimal_string(1234), "1234");
    assert_eq!(decimal_string(u64::MAX), u64::MAX.to_string());
}

#[test]
fn parse_i32_accepts_signed_decimals() {
    assert_eq!(parse_i32("42"), Some(42));
    assert_eq!(parse_i32("-42"), Some(-42));
    assert_eq!(parse_i32("+7"), Some(7));
    assert_eq!(parse_i32("007"), Some(7));
    assert_eq!(parse_i32("-0"), Some(0));
    assert_eq!(parse_i32("2147483647"), Some(i32::MAX));
    assert_eq!(parse_i32("-2147483648"), Some(i32::MIN));
}

#[test]
fn parse_i32_rejects_what_is_not_an_i32() {
    for s in ["", "-", "+", "12a", " 1", "1 ", "1_000", "2147483648", "-2147483649", "99999999999999999999", "--1", "+-1", "٣"] {
        assert_eq!(parse_i32(s), None, "{:?}", s);
    }
}

#[test]
fn parse_i32_agrees_with_std() {
    let cases = [
        "0", "1", "-1", "+0", "2020", "1999-01-01", "2147483646", "2147483647", "2147483648",
        "-2147483647", "-2147483648", "-2147483649", "4294967296", "12345678901234567890", "+",
        "-", "", "abc", "3.5", "1e3", "0x10", "00000000000000000000042",
    ];
    for s in cases {
        assert_eq!(parse_i32(s), s.parse::<i32>().ok(), "{:?}", s);
    }
}

#[test]
fn split_at_char_matches_str_split() {
    let cases = ["a,b,,c", "", ",", "abc", ",a,", "tag one,tag two"];
    for s in cases {
        let expected: Vec<String> = s.split(',').map(|p| p.to_string()).collect();
        assert_eq!(split_at_char(s, ','), expected, "{:?}", s);
    }
    assert_eq!(split_at_char("12.json", '.'), vec!["12".to_string(), "json".to_string()]);
}

#[test]
fn join_strings_matches_slice_join() {
    let pieces = vec!["rock".to_string(), "".to_string(), "jazz".to_string()];
    assert_eq!(join_strings(&pieces, ","), pieces.join(","));
    assert_eq!(join_strings(&vec![], ","), "");
    assert_eq!(join_strings(&vec!["one".to_string()], ", "), "one");
}

#[test]
fn join_after_split_gives_back_the_text() {
    for s in ["a,b,,c", "", ",", ",x,"] {
        assert_eq!(join_strings(&split_at_char(s, ','), ","), s);
    }
}

#[test]
fn hex_string_renders_lowercase_pairs() {
    assert_eq!(hex_string(&[]), "");
    assert_eq!(hex_string(&[0x00, 0x0f, 0xa0, 0xff]), "000fa0ff");
}

#[test]
fn chars_of_lists_characters() {
    assert_eq!(chars_of("héllo"), vec!['h', 'é', 'l', 'l', 'o']);
}

#[test]
fn parsing_a_rendered_number_gives_it_back() {
    for n in [0u64, 9, 10, 12345, i32::MAX as u64] {
        assert_eq!(parse_i32(&decimal_string(n)), Some(n as i32));
    }
}
