use gitflow::scan::{parse_u32, split_chars, split_lines, split_words, trim_start_all};

fn cs(s: &str) -> Vec<char> {
    s.chars().collect()
}

fn strs(v: Vec<Vec<char>>) -> Vec<String> {
    v.into_iter().map(|c| c.into_iter().collect()).collect()
}

#[test]
fn numbers_parse_like_u32_from_str() {
    assert_eq!(parse_u32(&cs("42")), Some(42));
    assert_eq!(parse_u32(&cs("+7")), Some(7));
    assert_eq!(parse_u32(&cs("4294967295")), Some(u32::MAX));
    assert_eq!(parse_u32(&cs("4294967296")), None);
    assert_eq!(parse_u32(&cs("")), None);
    assert_eq!(parse_u32(&cs("+")), None);
    assert_eq!(parse_u32(&cs("-1")), None);
    assert_eq!(parse_u32(&cs("1a")), None);
}

#[test]
fn splitting_matches_std() {
    for text in ["a\nb\r\n\nc", "x\n", "", "\n", "tail\r", "a\r\n"] {
        let expected: Vec<String> = text.lines().map(|l| l.to_string()).collect();
        assert_eq!(strs(split_lines(&cs(text))), expected, "lines of {:?}", text);
    }
    for text in ["  a b\t c  ", "", "one", "a\u{3000}b"] {
        let expected: Vec<String> = text.split_whitespace().map(|w| w.to_string()).collect();
        assert_eq!(strs(split_words(&cs(text))), expected, "words of {:?}", text);
    }
    for text in ["1,2", ",", "abc", "", "1,2,3"] {
        let expected: Vec<String> = text.split(',').map(|w| w.to_string()).collect();
        assert_eq!(strs(split_chars(&cs(text), ',')), expected, "pieces of {:?}", text);
    }
    assert_eq!(trim_start_all(&cs("a/a/b"), &cs("a/")), cs("b"));
    assert_eq!(trim_start_all(&cs("--3"), &cs("-")), cs("3"));
}
