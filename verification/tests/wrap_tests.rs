use church_presenter::text::{split_whitespace_range, text_lines};
use church_presenter::wrap::WrapState;

/// Wraps `text` where a candidate line longer than `width` characters is too wide.
fn wrap(text: &str, width: usize) -> Vec<String> {
    let mut w = WrapState::new();
    for line in text_lines(text) {
        for word in split_whitespace_range(&line, 0, line.len()) {
            let too_wide = w.candidate(&word).chars().count() > width && !w.current.is_empty();
            w.place(word, too_wide);
        }
        w.end_line();
    }
    w.into_lines()
}

#[test]
fn words_fill_lines_up_to_the_width() {
    assert_eq!(wrap("Amazing grace how sweet the sound", 14), vec!["Amazing grace", "how sweet the", "sound"]);
    assert_eq!(wrap("a b\n\nc", 10), vec!["a b", "c"]);
    assert_eq!(wrap("", 10), Vec::<String>::new());
    assert_eq!(wrap("overlongword x", 3), vec!["overlongword", "x"]);
}

#[test]
fn candidate_joins_with_one_space() {
    let mut w = WrapState::new();
    assert_eq!(w.candidate(&"Grace".chars().collect()), "Grace");
    w.place("Grace".chars().collect(), false);
    assert_eq!(w.candidate(&"abounds".chars().collect()), "Grace abounds");
    w.place("abounds".chars().collect(), true);
    assert_eq!(w.lines.len(), 1);
    assert_eq!(w.current, "abounds".chars().collect::<Vec<char>>());
}

#[test]
fn wrapping_keeps_every_word_in_order() {
    let text = "Amazing grace how sweet the sound\nThat saved a wretch\n\n  like me  ";
    for width in [1, 5, 14, 100] {
        let lines = wrap(text, width);
        assert!(lines.iter().all(|l| !l.is_empty()));
        let got: Vec<String> = lines.iter().flat_map(|l| l.split_whitespace().map(|w| w.to_string())).collect();
        let want: Vec<String> = text.split_whitespace().map(|w| w.to_string()).collect();
        assert_eq!(got, want);
    }
}
