use vstd::prelude::*;

use crate::scripture::{fmt_reference, law_parse_reads_written_reference, spec_parse_reference};
use crate::text::{
    chars_of, contains_char, fmt_i32, has_prefix, is_ws, lowercase, push_str, starts_with,
    string_of, to_lower, trim, trim_range,
};

verus! {

/// The search text that jumps to the first verse of a book: `{book} 1:1`.
pub fn book_jump_text(book: &str) -> (r: String)
    ensures
        r@ == book@ + " 1:1"@,
{
    let mut out = chars_of(book);
    push_str(&mut out, " 1:1");
    string_of(&out)
}

/// The book name typed so far: a leading `=` dropped, then trimmed.
pub open spec fn typed_book(text: Seq<char>) -> Seq<char> {
    trim(
        if text.len() > 0 && text[0] == '=' {
            text.drop_first()
        } else {
            text
        },
    )
}

/// The SQL `LIKE` pattern that finds a book whose name begins with what was typed, or
/// `None` where nothing but `=` and whitespace was typed.
pub fn book_name_pattern(text: &str) -> (r: Option<String>)
    ensures
        typed_book(text@).len() == 0 ==> r is None,
        typed_book(text@).len() > 0 ==> (r matches Some(p) && p@ == typed_book(text@).push('%')),
{
    let v = chars_of(text);
    let lo: usize = if v.len() > 0 && v[0] == '=' {
        1
    } else {
        0
    };
    let (a, b) = trim_range(&v, lo, v.len());
    if lo == 1 {
        assert(v@.subrange(1, v@.len() as int) =~= text@.drop_first());
    } else {
        assert(v@.subrange(0, v@.len() as int) =~= text@);
    }
    if a == b {
        return None;
    }
    let mut out: Vec<char> = Vec::new();
    let mut i = a;
    while i < b
        invariant
            a <= i <= b <= v@.len(),
            out@ == v@.subrange(a as int, i as int),
        decreases b - i,
    {
        assert(v@.subrange(a as int, i + 1) =~= v@.subrange(a as int, i as int).push(
            v@[i as int],
        ));
        out.push(v[i]);
        i = i + 1;
    }
    out.push('%');
    Some(string_of(&out))
}

/// When a released key in the search entry asks for a book name to be completed: not
/// in keyword mode, not after a navigation or editing key, with no selection, and with
/// text typed that holds no `:`.
pub open spec fn spec_wants_completion(
    by_keyword: bool,
    editing_key: bool,
    has_selection: bool,
    text: Seq<char>,
) -> bool {
    !by_keyword && !editing_key && text.len() > 0 && !text.contains(':') && !has_selection
}

/// Whether to look up a completion for the search text.
pub fn wants_completion(by_keyword: bool, editing_key: bool, has_selection: bool, text: &str) -> (r:
    bool)
    ensures
        r == spec_wants_completion(by_keyword, editing_key, has_selection, text@),
{
    if by_keyword || editing_key {
        return false;
    }
    if text.is_empty() || contains_char(text, ':') {
        return false;
    }
    !has_selection
}

/// The completed book name is shown with its untyped tail selected, from the byte
/// length of the typed text to that of the completion, where the completion is longer
/// and begins, case aside, with what was typed.
pub open spec fn spec_completion_region(
    text: &str,
    completed: &str,
    lower_text: Seq<char>,
    lower_completed: Seq<char>,
) -> Option<(i32, i32)> {
    if completed.len() > text.len() && has_prefix(
        lower_completed,
        lower_text,
    ) {
        Some((text.len() as i32, completed.len() as i32))
    } else {
        None
    }
}

/// The selection to show after completing `text` to `completed`, given both
/// lower-cased.
pub fn completion_region_lowered(
    text: &str,
    completed: &str,
    lower_text: &str,
    lower_completed: &str,
) -> (r: Option<(i32, i32)>)
    ensures
        r == spec_completion_region(text, completed, lower_text@, lower_completed@),
{
    let tl = text.len();
    let cl = completed.len();
    if cl > tl && starts_with(lower_completed, lower_text) {
        Some((tl as i32, cl as i32))
    } else {
        None
    }
}

/// The selection to show after completing `text` to the book name `completed`, or
/// `None` where the completion is not taken.
pub fn completion_region(text: &str, completed: &str) -> (r: Option<(i32, i32)>)
    ensures
        r == spec_completion_region(text, completed, lowercase(text@), lowercase(completed@)),
{
    let lt = to_lower(text);
    let lc = to_lower(completed);
    completion_region_lowered(text, completed, lt.as_str(), lc.as_str())
}

/// What the right arrow does in the search entry.
#[derive(Clone, Copy, Debug, PartialEq, Eq, Structural)]
pub enum RightArrow {
    /// The key is left to the entry.
    Pass,
    /// The completion is accepted: the cursor goes to `cursor`, and the search runs when
    /// `search` holds.
    Accept { cursor: i32, search: bool },
}

/// The right arrow accepts a completion when, outside keyword mode, the selection runs
/// to the end of the text (measured in bytes) and is not empty; the search then runs
/// unless the text holds a `:`.
pub open spec fn spec_right_arrow(by_keyword: bool, selection: Option<(i32, i32)>, text: &str) -> RightArrow {
    match selection {
        Some((start, end)) => {
            if !by_keyword && end == text.len() as i32 && start < end {
                RightArrow::Accept { cursor: end, search: !text@.contains(':') }
            } else {
                RightArrow::Pass
            }
        },
        None => RightArrow::Pass,
    }
}

/// Decides what the right arrow does, given the entry's selection and text.
pub fn right_arrow(by_keyword: bool, selection: Option<(i32, i32)>, text: &str) -> (r: RightArrow)
    ensures
        r == spec_right_arrow(by_keyword, selection, text),
{
    match selection {
        Some((start, end)) => {
            if !by_keyword && end == text.len() as i32 && start < end {
                RightArrow::Accept { cursor: end, search: !contains_char(text, ':') }
            } else {
                RightArrow::Pass
            }
        },
        None => RightArrow::Pass,
    }
}

/// Whether leaving the search entry runs the search: outside keyword mode, with text
/// typed that holds no `:` (a bare book name shows its first chapter).
pub fn search_on_leave(by_keyword: bool, text: &str) -> (r: bool)
    ensures
        r == (!by_keyword && text@.len() > 0 && !text@.contains(':')),
{
    !by_keyword && !text.is_empty() && !contains_char(text, ':')
}

/// The verse row that the left or right arrow moves to from row `current`: one down or
/// one up, and none above the first.
pub fn next_row(current: i32, right: bool) -> (r: Option<i32>)
    requires
        right ==> current < i32::MAX,
        !right ==> current > i32::MIN,
    ensures
        r == (if right {
            if current + 1 >= 0 {
                Some((current + 1) as i32)
            } else {
                None
            }
        } else if current - 1 >= 0 {
            Some((current - 1) as i32)
        } else {
            None
        }),
{
    let next = if right {
        current + 1
    } else {
        current - 1
    };
    if next >= 0 {
        Some(next)
    } else {
        None
    }
}

/// Choosing a book from the book list searches for its first verse: the jump text
/// reads back as chapter 1, verse 1 of that book, for any book name without
/// whitespace at either end that does not start with `=`.
pub proof fn law_book_jump_reads_first_verse(book: Seq<char>)
    requires
        book.len() > 0,
        !is_ws(book[0]),
        !is_ws(book.last()),
        book[0] != '=',
    ensures
        spec_parse_reference(book + " 1:1"@) == (book, Some(1i32), Some(1i32)),
{
    reveal_strlit(" 1:1");
    assert(fmt_i32(1) =~= seq!['1']);
    assert(book + " 1:1"@ =~= fmt_reference(book, 1, 1));
    law_parse_reads_written_reference(book, 1, 1);
}

} // verus!

verus! {

/// A completion that is taken selects exactly the untyped tail: from the typed
/// text's length to the completed name's, which is longer; it is taken only where
/// the name begins, case aside, with what was typed.
pub proof fn law_completion_selects_the_tail(
    text: &str,
    completed: &str,
    lower_text: Seq<char>,
    lower_completed: Seq<char>,
)
    ensures
        match spec_completion_region(text, completed, lower_text, lower_completed) {
            Some((start, end)) => start == text.len() as i32 && end == completed.len() as i32
                && completed.len() > text.len() && lower_text.len() <= lower_completed.len()
                && lower_completed.take(lower_text.len() as int) == lower_text,
            None => completed.len() <= text.len() || lower_completed.take(lower_text.len() as int)
                != lower_text || lower_text.len() > lower_completed.len(),
        },
{
}

} // verus!
