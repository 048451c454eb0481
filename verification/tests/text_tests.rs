use loadgen::text::{chars_of, contains, is_white_space_char, lines, starts_with, string_of, words};

fn cs(s: &str) -> Vec<char> {
    s.chars().collect()
}

fn lines_of(s: &str) -> Vec<String> {
    lines(&cs(s)).iter().map(|l| l.iter().collect()).collect()
}

fn words_of(s: &str) -> Vec<String> {
    words(&cs(s)).iter().map(|w| w.iter().collect()).collect()
}

#[test]
fn chars_round_trip() {
    let s = "héllo wörld";
    let v = chars_of(s);
    assert_eq!(v, s.chars().collect::<Vec<char>>());
    assert_eq!(string_of(&v), s);
}

#[test]
fn lines_match_std_lines() {
    for s in [
        "",
        "a",
        "a\n",
        "a\nb",
        "a\r\nb\r\n",
        "\n\n",
        "x\r",
        "x\r\ry\n",
        "one\n\ntwo\r\nthree",
        "\r\n",
    ] {
        let expected: Vec<String> = s.lines().map(|l| l.to_string()).collect();
        assert_eq!(lines_of(s), expected, "input {:?}", s);
    }
}

#[test]
fn lines_concrete_values() {
    assert_eq!(lines_of("a\r\nb\n\nc"), vec!["a", "b", "", "c"]);
    assert_eq!(lines_of("x\r"), vec!["x\r"]);
    assert!(lines_of("").is_empty());
}

#[test]
fn words_match_std_split_whitespace() {
    for s in [
        "",
        "   ",
        "a b  c",
        "  lead and trail  ",
        "tab\tsep\nnew\u{3000}ideo\u{a0}nbsp",
        "%Cpu(s):  1.2 us,  0.3 sy",
    ] {
        let expected: Vec<String> = s.split_whitespace().map(|w| w.to_string()).collect();
        assert_eq!(words_of(s), expected, "input {:?}", s);
    }
}

#[test]
fn white_space_matches_std() {
    for u in 0u32..0x3100 {
        if let Some(c) = char::from_u32(u) {
            assert_eq!(is_white_space_char(c), c.is_whitespace(), "char {:x}", u);
        }
    }
}

#[test]
fn substring_search() {
    assert!(contains(&cs("abc firecracker x"), &cs("firecracker")));
    assert!(!contains(&cs("abc fire cracker"), &cs("firecracker")));
    assert!(contains(&cs("abc"), &cs("")));
    assert!(contains(&cs("abc"), &cs("abc")));
    assert!(!contains(&cs("ab"), &cs("abc")));
    assert!(starts_with(&cs("%Cpu(s): 3"), &cs("%Cpu(s):")));
    assert!(!starts_with(&cs(" %Cpu(s): 3"), &cs("%Cpu(s):")));
    assert!(starts_with(&cs("x"), &cs("")));
}
