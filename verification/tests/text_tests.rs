use church_presenter::text::{
    chars_of, contains_char, ends_with, is_whitespace, join_words, parse_i32_range, split_whitespace_range,
    starts_with, str_eq, string_of, text_lines, trim_range, without_brackets,
};

fn parse(s: &str) -> Option<i32> {
    let v = chars_of(s);
    parse_i32_range(&v, 0, v.len())
}

#[test]
fn whitespace_matches_std() {
    for c in ['\t', '\n', '\u{b}', '\u{c}', '\r', ' ', '\u{85}', '\u{a0}', '\u{1680}', '\u{2000}', '\u{200a}', '\u{2028}',
        '\u{2029}', '\u{202f}', '\u{205f}', '\u{3000}', 'a', '0', '\u{200b}', '\u{180e}', '\u{feff}', '_'] {
        assert_eq!(is_whitespace(c), c.is_whitespace(), "{:?}", c);
    }
}

#[test]
fn numbers_parse_as_std_does() {
    for s in ["0", "16", "+7", "-2", "2147483647", "-2147483648", "2147483648", "-2147483649", "", "+", "-", "1a",
        " 1", "007", "--1", "99999999999999999999"] {
        assert_eq!(parse(s), s.parse::<i32>().ok(), "{:?}", s);
    }
}

#[test]
fn trimming_and_splitting_match_std() {
    for s in ["  John 3:16  ", "", "   ", "a\u{3000}b\u{a0}", "\tx y\n"] {
        let v = chars_of(s);
        let (a, b) = trim_range(&v, 0, v.len());
        assert_eq!(v[a..b].iter().collect::<String>(), s.trim());
        let words = split_whitespace_range(&v, 0, v.len());
        let std_words: Vec<Vec<char>> = s.split_whitespace().map(|w| w.chars().collect()).collect();
        assert_eq!(words, std_words);
        assert_eq!(string_of(&join_words(&words, words.len())), s.split_whitespace().collect::<Vec<_>>().join(" "));
    }
}

#[test]
fn lines_match_std() {
    for s in ["a\nb", "a\r\nb\n", "", "\n\n", "x\r"] {
        let got: Vec<String> = text_lines(s).iter().map(|l| l.iter().collect()).collect();
        let want: Vec<String> = s.lines().map(|l| l.to_string()).collect();
        assert_eq!(got, want, "{:?}", s);
    }
}

#[test]
fn prefixes_suffixes_and_contents() {
    assert!(starts_with("Psalms", "Psa"));
    assert!(!starts_with("Psa", "Psalms"));
    assert!(starts_with("x", ""));
    assert!(ends_with("a.mp4", ".mp4"));
    assert!(!ends_with("a.mp", ".mp4"));
    assert!(contains_char("John 3:16", ':'));
    assert!(!contains_char("John", ':'));
    assert!(str_eq("KJV", "KJV"));
    assert!(!str_eq("KJV", "KJ"));
    assert_eq!(without_brackets(&chars_of("[a]b]")), chars_of("ab"));
}
