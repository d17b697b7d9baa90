use contest_tester::compare::trimmed_lines_of;
use contest_tester::text::{chars_of, is_white_space, push_decimal, split_lines, trim_chars};

fn lines_of(s: &str) -> Vec<String> {
    split_lines(&chars_of(s)).into_iter().map(|l| l.into_iter().collect()).collect()
}

#[test]
fn splitting_into_lines() {
    assert_eq!(lines_of(""), Vec::<String>::new());
    assert_eq!(lines_of("\n"), vec![""]);
    assert_eq!(lines_of("a"), vec!["a"]);
    assert_eq!(lines_of("a\n"), vec!["a"]);
    assert_eq!(lines_of("a\n\nb"), vec!["a", "", "b"]);
    assert_eq!(lines_of("a\n\n"), vec!["a", ""]);
}

#[test]
fn trimming_characters() {
    let t: String = trim_chars(&chars_of(" \t a b \r\n")).into_iter().collect();
    assert_eq!(t, "a b");
    let t: String = trim_chars(&chars_of("   ")).into_iter().collect();
    assert_eq!(t, "");
    let lines: Vec<String> =
        trimmed_lines_of(" x \r\n\ty\n").into_iter().map(|l| l.into_iter().collect()).collect();
    assert_eq!(lines, vec!["x", "y"]);
}

#[test]
fn whitespace_characters() {
    for c in ['\t', '\n', '\u{b}', '\u{c}', '\r', ' ', '\u{85}', '\u{a0}', '\u{2000}', '\u{3000}'] {
        assert!(is_white_space(c));
        assert_eq!(is_white_space(c), c.is_whitespace());
    }
    for c in ['a', '0', '\u{200b}', '_'] {
        assert!(!is_white_space(c));
    }
}

#[test]
fn decimal_numerals() {
    let mut s = String::from("n=");
    push_decimal(&mut s, 0);
    assert_eq!(s, "n=0");
    push_decimal(&mut s, 907);
    assert_eq!(s, "n=0907");
    let mut m = String::new();
    push_decimal(&mut m, usize::MAX);
    assert_eq!(m, usize::MAX.to_string());
}
