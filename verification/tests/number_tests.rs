use loadgen::number::{parse_i32, parse_usize};

fn cs(s: &str) -> Vec<char> {
    s.chars().collect()
}

const SAMPLES: [&str; 22] = [
    "", "+", "-", "0", "7", "+7", "-7", "007", "42", "1a", " 1", "1 ", "++1", "+-1", "-+1",
    "2147483647", "2147483648", "-2147483648", "-2147483649", "18446744073709551615",
    "18446744073709551616", "99999999999999999999999",
];

#[test]
fn parse_usize_matches_std() {
    for s in SAMPLES {
        assert_eq!(parse_usize(&cs(s)), s.parse::<usize>().ok(), "input {:?}", s);
    }
}

#[test]
fn parse_i32_matches_std() {
    for s in SAMPLES {
        assert_eq!(parse_i32(&cs(s)), s.parse::<i32>().ok(), "input {:?}", s);
    }
}

#[test]
fn parse_concrete_values() {
    assert_eq!(parse_usize(&cs("42")), Some(42));
    assert_eq!(parse_usize(&cs("+7")), Some(7));
    assert_eq!(parse_usize(&cs("-1")), None);
    assert_eq!(parse_usize(&cs("")), None);
    assert_eq!(parse_i32(&cs("-2147483648")), Some(i32::MIN));
    assert_eq!(parse_i32(&cs("2147483648")), None);
    assert_eq!(parse_i32(&cs("1234")), Some(1234));
}
