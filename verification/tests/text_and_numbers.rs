use muzap::fmt::{decimal_chars, number_right, parse_u64, parse_usize, str_left};

fn s(v: Vec<char>) -> String {
    v.into_iter().collect()
}

fn c(t: &str) -> Vec<char> {
    t.chars().collect()
}

#[test]
fn decimal_digits_of_numbers() {
    assert_eq!(s(decimal_chars(0)), "0");
    assert_eq!(s(decimal_chars(7)), "7");
    assert_eq!(s(decimal_chars(1024)), "1024");
    assert_eq!(s(decimal_chars(u64::MAX)), "18446744073709551615");
}

#[test]
fn columns_are_padded_like_format() {
    assert_eq!(s(number_right(42, 5)), format!("{:>5}", 42));
    assert_eq!(s(number_right(123456, 3)), "123456");
    assert_eq!(s(str_left("abc", 6)), format!("{:<6}", "abc"));
}

#[test]
fn numbers_parse_like_str_parse() {
    for t in ["0", "42", "+7", "007", "18446744073709551615"] {
        assert_eq!(parse_u64(&c(t)), t.parse::<u64>().ok());
        assert_eq!(parse_usize(&c(t)), t.parse::<usize>().ok());
    }
    for t in ["", "+", "-1", "1a", " 1", "18446744073709551616"] {
        assert_eq!(parse_u64(&c(t)), None);
        assert_eq!(t.parse::<u64>().ok(), None);
    }
}
