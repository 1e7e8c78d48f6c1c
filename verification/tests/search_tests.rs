use church_presenter::scripture::parse_reference;
use church_presenter::search::{
    book_jump_text, book_name_pattern, completion_region, completion_region_lowered, next_row, right_arrow,
    search_on_leave, wants_completion, RightArrow,
};

#[test]
fn book_jump() {
    assert_eq!(book_jump_text("Song of Solomon"), "Song of Solomon 1:1");
    for book in ["Genesis", "1 John", "Song of Solomon"] {
        assert_eq!(parse_reference(&book_jump_text(book)), (book.to_string(), Some(1), Some(1)));
    }
}

#[test]
fn book_patterns() {
    assert_eq!(book_name_pattern("Joh"), Some("Joh%".to_string()));
    assert_eq!(book_name_pattern("= 1 Jo "), Some("1 Jo%".to_string()));
    assert_eq!(book_name_pattern("=="), Some("=%".to_string()));
    assert_eq!(book_name_pattern(" = "), Some("=%".to_string()));
    assert_eq!(book_name_pattern("=  "), None);
    assert_eq!(book_name_pattern(""), None);
}

#[test]
fn when_to_complete() {
    assert!(wants_completion(false, false, false, "Joh"));
    assert!(!wants_completion(true, false, false, "Joh"));
    assert!(!wants_completion(false, true, false, "Joh"));
    assert!(!wants_completion(false, false, true, "Joh"));
    assert!(!wants_completion(false, false, false, ""));
    assert!(!wants_completion(false, false, false, "John 3:"));
}

#[test]
fn completion_selection() {
    assert_eq!(completion_region("joh", "John"), Some((3, 4)));
    assert_eq!(completion_region("PSA", "Psalms"), Some((3, 6)));
    assert_eq!(completion_region("John", "John"), None);
    assert_eq!(completion_region("1 j", "John"), None);
    assert_eq!(completion_region("é", "Éx"), Some((2, 3)));
    assert_eq!(completion_region_lowered("x", "Xy", "x", "xy"), Some((1, 2)));
    assert_eq!(completion_region_lowered("x", "Xy", "x", "Xy"), None);
}

#[test]
fn right_arrow_accepts_a_completion() {
    assert_eq!(right_arrow(false, Some((3, 4)), "John"), RightArrow::Accept { cursor: 4, search: true });
    assert_eq!(right_arrow(false, Some((5, 8)), "John 3:1"), RightArrow::Accept { cursor: 8, search: false });
    assert_eq!(right_arrow(false, Some((4, 4)), "John"), RightArrow::Pass);
    assert_eq!(right_arrow(false, Some((1, 3)), "John"), RightArrow::Pass);
    assert_eq!(right_arrow(true, Some((3, 4)), "John"), RightArrow::Pass);
    assert_eq!(right_arrow(false, None, "John"), RightArrow::Pass);
}

#[test]
fn leaving_and_arrows() {
    assert!(search_on_leave(false, "John"));
    assert!(!search_on_leave(false, "John 3:16"));
    assert!(!search_on_leave(false, ""));
    assert!(!search_on_leave(true, "John"));
    assert_eq!(next_row(3, true), Some(4));
    assert_eq!(next_row(3, false), Some(2));
    assert_eq!(next_row(0, false), None);
    assert_eq!(next_row(-5, true), None);
}
