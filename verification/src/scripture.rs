use vstd::prelude::*;

use crate::wrap::{is_word, lemma_split_space_word, lemma_split_word};

use crate::text::{
    all_ws, lemma_find_at, lemma_rfind_none, lemma_trim_end_prepend, lemma_trim_end_split,
    lemma_trim_idempotent, lemma_trim_of_trim_end, lemma_trim_start_append, lemma_trim_ws_around,
    trim_end, trim_start,
    chars_of, drop_brackets, is_digit, is_ws, lemma_fmt_i32_shape, lemma_parse_fmt_i32, lemma_rfind_split, lemma_trim_id, lemma_trim_leading_space, fmt_i32, push_i32, find, find_range, join, lemma_find, without_brackets, join_words, parse_i32, parse_i32_range, rfind, rfind_range, split_whitespace_range,
    split_ws, string_of, string_of_range, trim, trim_range, views,
};

verus! {

/// The search text of a query: trimmed, then, where it starts with `=`, that sign
/// dropped and the rest trimmed again.
pub open spec fn search_text(query: Seq<char>) -> Seq<char> {
    let t = trim(query);
    if t.len() > 0 && t[0] == '=' {
        trim(t.drop_first())
    } else {
        t
    }
}

/// The reference part before the last `:`: a book, then perhaps a chapter number
/// after the last space.
pub open spec fn book_and_chapter(left: Seq<char>) -> (Seq<char>, Option<i32>) {
    match rfind(left, ' ') {
        Some(si) => match parse_i32(trim(left.subrange(si, left.len() as int))) {
            Some(c) => (trim(left.subrange(0, si)), Some(c)),
            None => (left, None),
        },
        None => (left, None),
    }
}

/// How a search text (already trimmed) reads as a Scripture reference: the book
/// name, the chapter and the verse, each number where one is given.
///
/// With a `:`, the verse is what follows the last `:`, and the chapter the number
/// after the last space before it.  Without one, the text is split into words: two
/// trailing numbers are chapter and verse, one trailing number is the chapter, and
/// the words before them, joined by single spaces, are the book.
pub open spec fn spec_parse_reference_text(q: Seq<char>) -> (Seq<char>, Option<i32>, Option<i32>) {
    if q.len() == 0 {
        (seq![], None, None)
    } else {
        match rfind(q, ':') {
            Some(ci) => {
                let verse = parse_i32(trim(q.subrange(ci + 1, q.len() as int)));
                let (book, chapter) = book_and_chapter(trim(q.subrange(0, ci)));
                (book, chapter, verse)
            },
            None => {
                let parts = split_ws(q);
                let n = parts.len();
                if n == 0 {
                    (seq![], None, None)
                } else if n >= 3 && parse_i32(parts[n - 1]) is Some && parse_i32(
                    parts[n - 2],
                ) is Some {
                    (join(parts.take(n - 2), seq![' ']), parse_i32(parts[n - 2]), parse_i32(parts[n - 1]))
                } else if n >= 2 && parse_i32(parts[n - 1]) is Some {
                    (join(parts.take(n - 1), seq![' ']), parse_i32(parts[n - 1]), None)
                } else {
                    (q, None, None)
                }
            },
        }
    }
}

/// How a search query reads as a Scripture reference (`spec_parse_reference_text`
/// of its search text).
pub open spec fn spec_parse_reference(query: Seq<char>) -> (Seq<char>, Option<i32>, Option<i32>) {
    spec_parse_reference_text(search_text(query))
}

/// The reference read from `v[qa..qb]`, a search text with its last `:` at `ci`.
fn parse_colon_reference(v: &Vec<char>, qa: usize, qb: usize, ci: usize) -> (r: (
    String,
    Option<i32>,
    Option<i32>,
))
    requires
        qa <= ci < qb <= v@.len(),
        rfind(v@.subrange(qa as int, qb as int), ':') == Some(ci - qa),
    ensures
        (r.0@, r.1, r.2) == spec_parse_reference_text(v@.subrange(qa as int, qb as int)),
{
    let ghost s = v@;
    let ghost q = s.subrange(qa as int, qb as int);
    let (va, vb) = trim_range(v, ci + 1, qb);
    assert(q.subrange(ci - qa + 1, q.len() as int) =~= s.subrange(ci + 1, qb as int));
    let verse = parse_i32_range(v, va, vb);
    let (la, lb) = trim_range(v, qa, ci);
    assert(q.subrange(0, ci - qa) =~= s.subrange(qa as int, ci as int));
    let ghost left = s.subrange(la as int, lb as int);
    match rfind_range(v, la, lb, ' ') {
        Some(si) => {
            let (ca, cb) = trim_range(v, si, lb);
            assert(left.subrange(si - la, left.len() as int) =~= s.subrange(si as int, lb as int));
            match parse_i32_range(v, ca, cb) {
                Some(c) => {
                    let (ba, bb) = trim_range(v, la, si);
                    assert(left.subrange(0, si - la) =~= s.subrange(la as int, si as int));
                    (string_of_range(v, ba, bb), Some(c), verse)
                },
                None => (string_of_range(v, la, lb), None, verse),
            }
        },
        None => (string_of_range(v, la, lb), None, verse),
    }
}

/// The reference read from the words of `v[qa..qb]`, a search text without `:`.
fn parse_word_reference(v: &Vec<char>, qa: usize, qb: usize) -> (r: (
    String,
    Option<i32>,
    Option<i32>,
))
    requires
        qa < qb <= v@.len(),
        rfind(v@.subrange(qa as int, qb as int), ':') is None,
    ensures
        (r.0@, r.1, r.2) == spec_parse_reference_text(v@.subrange(qa as int, qb as int)),
{
    let parts = split_whitespace_range(v, qa, qb);
    let n = parts.len();
    let ghost ps = views(parts@);
    if n == 0 {
        return (String::new(), None, None);
    }
    assert(ps[n - 1] == parts@[n - 1]@);
    let last = parse_i32_range(&parts[n - 1], 0, parts[n - 1].len());
    assert(parts@[n - 1]@.subrange(0, parts@[n - 1]@.len() as int) =~= ps[n - 1]);
    if n >= 3 {
        assert(ps[n - 2] == parts@[n - 2]@);
        let second = parse_i32_range(&parts[n - 2], 0, parts[n - 2].len());
        assert(parts@[n - 2]@.subrange(0, parts@[n - 2]@.len() as int) =~= ps[n - 2]);
        if last.is_some() && second.is_some() {
            let book = join_words(&parts, n - 2);
            return (string_of(&book), second, last);
        }
    }
    if n >= 2 && last.is_some() {
        let book = join_words(&parts, n - 1);
        return (string_of(&book), last, None);
    }
    (string_of_range(v, qa, qb), None, None)
}

/// Reads a search query as a Scripture reference: `(book, chapter, verse)`.
pub fn parse_reference(query: &str) -> (r: (String, Option<i32>, Option<i32>))
    ensures
        (r.0@, r.1, r.2) == spec_parse_reference(query@),
{
    let v = chars_of(query);
    let ghost s = v@;
    let (a, b) = trim_range(&v, 0, v.len());
    assert(s.subrange(0, s.len() as int) =~= s);
    let ghost t = s.subrange(a as int, b as int);
    let (qa, qb) = if a < b && v[a] == '=' {
        assert(t.drop_first() =~= s.subrange(a + 1, b as int));
        trim_range(&v, a + 1, b)
    } else {
        (a, b)
    };
    assert(s.subrange(qa as int, qb as int) == search_text(s));
    if qa == qb {
        return (String::new(), None, None);
    }
    match rfind_range(&v, qa, qb, ':') {
        Some(ci) => parse_colon_reference(&v, qa, qb, ci),
        None => parse_word_reference(&v, qa, qb),
    }
}

} // verus!

verus! {

/// `s` with its markup removed: repeatedly, the first `<` up to the first `>`
/// after it, both included; an unclosed `<` and what follows it stay.
pub open spec fn strip_tags(s: Seq<char>) -> Seq<char>
    decreases s.len(),
{
    match find(s, '<') {
        Some(st) => match find(s.skip(st), '>') {
            Some(e) => {
                proof {
                    lemma_find(s, '<');
                    lemma_find(s.skip(st), '>');
                }
                strip_tags(s.take(st) + s.skip(st + e + 1))
            },
            None => s,
        },
        None => s,
    }
}

/// Verse text as the database holds it, made fit to show: markup in `<...>`
/// removed, then every `[` and `]`, then surrounding whitespace.
pub open spec fn spec_clean_verse_text(raw: Seq<char>) -> Seq<char> {
    trim(drop_brackets(strip_tags(raw)))
}

/// The characters of `v` without markup (`strip_tags`).
pub fn strip_tags_chars(v: Vec<char>) -> (r: Vec<char>)
    ensures
        r@ == strip_tags(v@),
{
    let mut cur = v;
    loop
        invariant
            strip_tags(v@) == strip_tags(cur@),
        decreases cur@.len(),
    {
        let ghost c = cur@;
        let len = cur.len();
        assert(c.subrange(0, len as int) =~= c);
        match find_range(&cur, 0, len, '<') {
            Some(st) => {
                assert(c.subrange(st as int, len as int) =~= c.skip(st as int));
                match find_range(&cur, st, len, '>') {
                    Some(k) => {
                        let mut next: Vec<char> = Vec::new();
                        let mut i: usize = 0;
                        while i < st
                            invariant
                                i <= st < len == cur@.len(),
                                cur@ == c,
                                next@ == c.take(i as int),
                            decreases st - i,
                        {
                            assert(c.take(i + 1) =~= c.take(i as int).push(c[i as int]));
                            next.push(cur[i]);
                            i = i + 1;
                        }
                        let mut j: usize = k + 1;
                        while j < len
                            invariant
                                st < k + 1 <= j <= len == cur@.len(),
                                cur@ == c,
                                next@ == c.take(st as int) + c.subrange(k + 1, j as int),
                            decreases len - j,
                        {
                            assert(c.subrange(k + 1, j + 1) =~= c.subrange(k + 1, j as int).push(
                                c[j as int],
                            ));
                            next.push(cur[j]);
                            j = j + 1;
                        }
                        assert(c.subrange(k + 1, len as int) =~= c.skip(k + 1));
                        cur = next;
                    },
                    None => {
                        return cur;
                    },
                }
            },
            None => {
                return cur;
            },
        }
    }
}

/// Verse text as the database holds it, made fit to show: markup in `<...>`
/// removed, then every `[` and `]`, then surrounding whitespace.
pub fn clean_verse_text(raw: &str) -> (r: String)
    ensures
        r@ == spec_clean_verse_text(raw@),
{
    let stripped = strip_tags_chars(chars_of(raw));
    let plain = without_brackets(&stripped);
    let (a, b) = trim_range(&plain, 0, plain.len());
    assert(plain@.subrange(0, plain@.len() as int) =~= plain@);
    string_of_range(&plain, a, b)
}

} // verus!

verus! {

/// One verse as shown in the Scripture table.
#[derive(Clone, Debug, PartialEq)]
pub struct Verse {
    pub translation: String,
    pub reference: String,
    pub text: String,
}

/// The reference a chapter query settled on, with the limits it was clamped to.
#[derive(Clone, Debug, PartialEq)]
pub struct ParsedRef {
    pub book_name: String,
    pub chapter: i32,
    pub verse: Option<i32>,
    pub max_chapter: i32,
    pub max_verse: i32,
}

/// How a verse is referred to: `Book C:V`.
pub open spec fn fmt_reference(book: Seq<char>, chapter: i32, verse: i32) -> Seq<char> {
    book + seq![' '] + fmt_i32(chapter) + seq![':'] + fmt_i32(verse)
}

/// The text a verse shows: cleaned (`spec_clean_verse_text`), or, for a keyword
/// search, only stripped of `[` and `]`.
pub open spec fn shown_text(raw: Seq<char>, clean: bool) -> Seq<char> {
    if clean {
        spec_clean_verse_text(raw)
    } else {
        drop_brackets(raw)
    }
}

/// The verse built from a database row.
pub open spec fn is_verse_of(
    v: Verse,
    translation: Seq<char>,
    book: Seq<char>,
    chapter: i32,
    verse: i32,
    raw: Seq<char>,
    clean: bool,
) -> bool {
    &&& v.translation@ == translation
    &&& v.reference@ == fmt_reference(book, chapter, verse)
    &&& v.text@ == shown_text(raw, clean)
}

/// Writes a verse reference, `Book C:V`.
pub fn verse_reference(book: &str, chapter: i32, verse: i32) -> (r: String)
    ensures
        r@ == fmt_reference(book@, chapter, verse),
{
    let mut v = chars_of(book);
    v.push(' ');
    push_i32(&mut v, chapter);
    v.push(':');
    push_i32(&mut v, verse);
    assert(v@ =~= fmt_reference(book@, chapter, verse));
    string_of(&v)
}

/// Builds the verse of a database row: its reference from the book name, chapter
/// and verse number, its text from the stored text.
pub fn make_verse(
    translation: &str,
    book: &str,
    chapter: i32,
    verse: i32,
    raw_text: &str,
    clean: bool,
) -> (r: Verse)
    ensures
        is_verse_of(r, translation@, book@, chapter, verse, raw_text@, clean),
{
    let text = if clean {
        clean_verse_text(raw_text)
    } else {
        string_of(&without_brackets(&chars_of(raw_text)))
    };
    Verse {
        translation: string_of(&chars_of(translation)),
        reference: verse_reference(book, chapter, verse),
        text,
    }
}

} // verus!

verus! {

/// `x` held inside `lo..=hi` (`Ord::clamp`).
pub open spec fn clamp(x: i32, lo: i32, hi: i32) -> i32 {
    if x < lo {
        lo
    } else if x > hi {
        hi
    } else {
        x
    }
}

/// `Ord::clamp`; like it, only for `lo <= hi`.
pub fn clamp_i32(x: i32, lo: i32, hi: i32) -> (r: i32)
    requires
        lo <= hi,
    ensures
        r == clamp(x, lo, hi),
        lo <= r <= hi,
{
    if x < lo {
        lo
    } else if x > hi {
        hi
    } else {
        x
    }
}

/// A database maximum, or 1 where the database has none.
pub open spec fn max_or_one(m: Option<i32>) -> i32 {
    match m {
        Some(x) => x,
        None => 1,
    }
}

/// The verses of one chapter's rows `(chapter, verse, text)`, all of one book.
pub open spec fn verses_of_rows(
    vs: Seq<Verse>,
    translation: Seq<char>,
    book: Seq<char>,
    rows: Seq<(i32, i32, String)>,
) -> bool {
    &&& vs.len() == rows.len()
    &&& forall|i: int|
        0 <= i < rows.len() ==> is_verse_of(
            #[trigger] vs[i],
            translation,
            book,
            rows[i].0,
            rows[i].1,
            rows[i].2@,
            true,
        )
}

/// The verses of text-search rows `(chapter, verse, text, book)`.
pub open spec fn verses_of_text_rows(
    vs: Seq<Verse>,
    translation: Seq<char>,
    rows: Seq<(i32, i32, String, String)>,
    clean: bool,
) -> bool {
    &&& vs.len() == rows.len()
    &&& forall|i: int|
        0 <= i < rows.len() ==> is_verse_of(
            #[trigger] vs[i],
            translation,
            rows[i].3@,
            rows[i].0,
            rows[i].1,
            rows[i].2@,
            clean,
        )
}

/// The verses of one chapter's rows.
pub fn chapter_verses(translation: &str, book: &str, rows: &Vec<(i32, i32, String)>) -> (r: Vec<
    Verse,
>)
    ensures
        verses_of_rows(r@, translation@, book@, rows@),
{
    let mut r: Vec<Verse> = Vec::new();
    let mut i: usize = 0;
    while i < rows.len()
        invariant
            i <= rows@.len(),
            verses_of_rows(r@, translation@, book@, rows@.take(i as int)),
        decreases rows@.len() - i,
    {
        let row = &rows[i];
        let v = make_verse(translation, book, row.0, row.1, row.2.as_str(), true);
        r.push(v);
        i = i + 1;
        assert forall|j: int| 0 <= j < i implies is_verse_of(
            #[trigger] r@[j],
            translation@,
            book@,
            rows@.take(i as int)[j].0,
            rows@.take(i as int)[j].1,
            rows@.take(i as int)[j].2@,
            true,
        ) by {
            if j < i - 1 {
                assert(rows@.take(i - 1)[j] == rows@.take(i as int)[j]);
            }
        }
    }
    assert(rows@.take(rows@.len() as int) =~= rows@);
    r
}

/// The verses of text-search rows.
pub fn text_verses(translation: &str, rows: &Vec<(i32, i32, String, String)>, clean: bool) -> (r:
    Vec<Verse>)
    ensures
        verses_of_text_rows(r@, translation@, rows@, clean),
{
    let mut r: Vec<Verse> = Vec::new();
    let mut i: usize = 0;
    while i < rows.len()
        invariant
            i <= rows@.len(),
            verses_of_text_rows(r@, translation@, rows@.take(i as int), clean),
        decreases rows@.len() - i,
    {
        let row = &rows[i];
        let v = make_verse(translation, row.3.as_str(), row.0, row.1, row.2.as_str(), clean);
        r.push(v);
        i = i + 1;
        assert forall|j: int| 0 <= j < i implies is_verse_of(
            #[trigger] r@[j],
            translation@,
            rows@.take(i as int)[j].3@,
            rows@.take(i as int)[j].0,
            rows@.take(i as int)[j].1,
            rows@.take(i as int)[j].2@,
            clean,
        ) by {
            if j < i - 1 {
                assert(rows@.take(i - 1)[j] == rows@.take(i as int)[j]);
            }
        }
    }
    assert(rows@.take(rows@.len() as int) =~= rows@);
    r
}

/// `"%" + text + "%"`: a pattern for text that contains `text`.
pub open spec fn contains_pattern(text: Seq<char>) -> Seq<char> {
    seq!['%'] + text + seq!['%']
}

/// `text + "%"`: a pattern for text that starts with `text`.
pub open spec fn prefix_pattern(text: Seq<char>) -> Seq<char> {
    text + seq!['%']
}

/// Builds `contains_pattern(text)`.
pub fn make_contains_pattern(text: &Vec<char>) -> (r: String)
    ensures
        r@ == contains_pattern(text@),
{
    let mut v: Vec<char> = Vec::new();
    v.push('%');
    let mut i: usize = 0;
    while i < text.len()
        invariant
            i <= text@.len(),
            v@ == seq!['%'] + text@.take(i as int),
        decreases text@.len() - i,
    {
        assert(text@.take(i + 1) =~= text@.take(i as int).push(text@[i as int]));
        v.push(text[i]);
        i = i + 1;
    }
    v.push('%');
    assert(text@.take(text@.len() as int) =~= text@);
    assert(v@ =~= contains_pattern(text@));
    string_of(&v)
}

/// Builds `prefix_pattern(text)`.
pub fn make_prefix_pattern(text: &str) -> (r: String)
    ensures
        r@ == prefix_pattern(text@),
{
    let mut v = chars_of(text);
    v.push('%');
    string_of(&v)
}

/// The reference shown before any search: Genesis 1, of 50 chapters, of 31 verses.
pub open spec fn is_default_ref(p: ParsedRef) -> bool {
    &&& p.book_name@ == "Genesis"@
    &&& p.chapter == 1
    &&& p.verse is None
    &&& p.max_chapter == 50
    &&& p.max_verse == 31
}

/// Builds the reference shown before any search.
pub fn default_ref() -> (r: ParsedRef)
    ensures
        is_default_ref(r),
{
    ParsedRef {
        book_name: String::from_str("Genesis"),
        chapter: 1,
        verse: None,
        max_chapter: 50,
        max_verse: 31,
    }
}

} // verus!

verus! {

/// The database work that a verse query asks for next.
#[derive(Debug, PartialEq)]
pub enum QueryAction {
    /// Open the Bible database.
    OpenDatabase,
    /// Read Genesis 1: the book's name and its rows `(chapter, verse, text)`.
    LoadDefaultChapter,
    /// Read at most 100 verses whose text matches `pattern`, as rows
    /// `(chapter, verse, text, book)` in Bible order.
    SearchText { pattern: String },
    /// Find the first book, by id, whose name matches `pattern`.
    FindBook { pattern: String },
    /// Read the highest chapter number of a book.
    MaxChapter { book_id: i32 },
    /// Read the highest verse number of a chapter.
    MaxVerse { book_id: i32, chapter: i32 },
    /// Read a chapter's rows `(chapter, verse, text)` in verse order.
    FetchChapter { book_id: i32, chapter: i32 },
    /// Nothing more: the query has its result.
    Done,
}

/// What the database answered to the last `QueryAction`.
#[derive(Debug)]
pub enum QueryEvent {
    /// Whether the database opened.
    Opened(bool),
    /// Genesis 1: the book's name and its rows, or `None` where it could not be read.
    DefaultChapter(Option<(String, Vec<(i32, i32, String)>)>),
    /// The rows of a text search (none where the search failed).
    TextRows(Vec<(i32, i32, String, String)>),
    /// The book found: its id and its name.
    Book(Option<(i32, String)>),
    /// A maximum, where the database has one.
    Max(Option<i32>),
    /// A chapter's rows, or `None` where the statement could not be prepared.
    ChapterRows(Option<Vec<(i32, i32, String)>>),
}

/// A verse query on its way through the database.
#[derive(Debug)]
#[allow(inconsistent_fields)]
pub enum VerseQuery {
    Opening { query: String, translation: String, by_keyword: bool },
    LoadingDefault { translation: String },
    Searching { translation: String, clean: bool },
    FindingBook { translation: String, text: String, chapter: Option<i32>, verse: Option<i32> },
    ReadingMaxChapter {
        translation: String,
        text: String,
        book_id: i32,
        book_name: String,
        chapter: Option<i32>,
        verse: Option<i32>,
    },
    ReadingMaxVerse {
        translation: String,
        book_id: i32,
        book_name: String,
        chapter: i32,
        max_chapter: i32,
        verse: Option<i32>,
    },
    ReadingChapter {
        translation: String,
        book_id: i32,
        book_name: String,
        chapter: i32,
        verse: Option<i32>,
        max_chapter: i32,
        max_verse: i32,
    },
    Finished { verses: Vec<Verse>, parsed: Option<ParsedRef> },
}

/// A query that has its result: the given verses and reference.
pub open spec fn is_finished(q: VerseQuery) -> bool {
    q is Finished
}

/// A finished query with no verses and no reference.
pub open spec fn finished_empty(q: VerseQuery) -> bool {
    q matches VerseQuery::Finished { verses, parsed } && verses@.len() == 0 && parsed is None
}

/// The answer a query in this state waits for, and one that keeps `Ord::clamp`
/// within its bounds.
pub open spec fn accepts(q: VerseQuery, e: QueryEvent) -> bool {
    match q {
        VerseQuery::Opening { .. } => e is Opened,
        VerseQuery::LoadingDefault { .. } => e is DefaultChapter,
        VerseQuery::Searching { .. } => e is TextRows,
        VerseQuery::FindingBook { .. } => e is Book,
        VerseQuery::ReadingMaxChapter { chapter, .. } => e matches QueryEvent::Max(m) && (
        chapter is Some ==> max_or_one(m) >= 1),
        VerseQuery::ReadingMaxVerse { verse, .. } => e matches QueryEvent::Max(m) && (verse is Some
            ==> max_or_one(m) >= 1),
        VerseQuery::ReadingChapter { .. } => e is ChapterRows,
        VerseQuery::Finished { .. } => false,
    }
}

/// One step of a verse query: from state `q` and answer `e` to state `n` and the
/// next action `a`.
///
/// An empty query shows Genesis 1; a keyword query searches verse text; otherwise the
/// query is read as a reference, its book looked up by prefix, its chapter clamped to
/// the book's chapters and its verse to the chapter's verses.  A book that is not
/// found makes the query a text search after all.
pub open spec fn is_step(q: VerseQuery, e: QueryEvent, n: VerseQuery, a: QueryAction) -> bool {
    match q {
        VerseQuery::Opening { query, translation, by_keyword } => {
            let t = trim(query@);
            let (book, chapter, verse) = spec_parse_reference(t);
            match e {
                QueryEvent::Opened(ok) => if !ok {
                    finished_empty(n) && a is Done
                } else if t.len() == 0 {
                    n matches VerseQuery::LoadingDefault { translation: tr } && tr@
                        == translation@ && a is LoadDefaultChapter
                } else if by_keyword {
                    &&& n matches VerseQuery::Searching { translation: tr, clean }
                    &&& tr@ == translation@ && !clean
                    &&& a matches QueryAction::SearchText { pattern }
                    &&& pattern@ == contains_pattern(t)
                } else {
                    &&& n matches VerseQuery::FindingBook {
                        translation: tr,
                        text,
                        chapter: c,
                        verse: v,
                    }
                    &&& tr@ == translation@ && text@ == t && c == chapter && v == verse
                    &&& a matches QueryAction::FindBook { pattern }
                    &&& pattern@ == prefix_pattern(book)
                },
                _ => false,
            }
        },
        VerseQuery::LoadingDefault { translation } => match e {
            QueryEvent::DefaultChapter(d) => {
                &&& n matches VerseQuery::Finished { verses, parsed }
                &&& parsed matches Some(p) && is_default_ref(p)
                &&& match d {
                    Some((name, rows)) => verses_of_rows(verses@, translation@, name@, rows@),
                    None => verses@.len() == 0,
                }
                &&& a is Done
            },
            _ => false,
        },
        VerseQuery::Searching { translation, clean } => match e {
            QueryEvent::TextRows(rows) => {
                &&& n matches VerseQuery::Finished { verses, parsed }
                &&& parsed is None
                &&& verses_of_text_rows(verses@, translation@, rows@, clean)
                &&& a is Done
            },
            _ => false,
        },
        VerseQuery::FindingBook { translation, text, chapter, verse } => match e {
            QueryEvent::Book(None) => {
                &&& n matches VerseQuery::Searching { translation: tr, clean }
                &&& tr@ == translation@ && clean
                &&& a matches QueryAction::SearchText { pattern }
                &&& pattern@ == contains_pattern(text@)
            },
            QueryEvent::Book(Some((id, name))) => {
                &&& n matches VerseQuery::ReadingMaxChapter {
                    translation: tr,
                    text: tx,
                    book_id,
                    book_name,
                    chapter: c,
                    verse: v,
                }
                &&& tr@ == translation@ && tx@ == text@ && book_id == id && book_name@ == name@
                &&& c == chapter && v == verse
                &&& a == QueryAction::MaxChapter { book_id: id }
            },
            _ => false,
        },
        VerseQuery::ReadingMaxChapter { translation, book_id, book_name, chapter, verse, .. } => match e {
            QueryEvent::Max(m) => {
                let mc = max_or_one(m);
                let c = match chapter {
                    Some(x) => clamp(x, 1, mc),
                    None => 1,
                };
                &&& n matches VerseQuery::ReadingMaxVerse {
                    translation: tr,
                    book_id: id,
                    book_name: bn,
                    chapter: nc,
                    max_chapter,
                    verse: v,
                }
                &&& tr@ == translation@ && id == book_id && bn@ == book_name@
                &&& nc == c && max_chapter == mc && v == verse
                &&& a == QueryAction::MaxVerse { book_id, chapter: c }
            },
            _ => false,
        },
        VerseQuery::ReadingMaxVerse { translation, book_id, book_name, chapter, max_chapter, verse } => match e {
            QueryEvent::Max(m) => {
                let mv = max_or_one(m);
                let v = match verse {
                    Some(x) => Some(clamp(x, 1, mv)),
                    None => None,
                };
                &&& n matches VerseQuery::ReadingChapter {
                    translation: tr,
                    book_id: id,
                    book_name: bn,
                    chapter: c,
                    verse: nv,
                    max_chapter: mc,
                    max_verse,
                }
                &&& tr@ == translation@ && id == book_id && bn@ == book_name@
                &&& c == chapter && nv == v && mc == max_chapter && max_verse == mv
                &&& a == QueryAction::FetchChapter { book_id, chapter }
            },
            _ => false,
        },
        VerseQuery::ReadingChapter {
            translation,
            book_name,
            chapter,
            verse,
            max_chapter,
            max_verse,
            ..
        } => match e {
            QueryEvent::ChapterRows(None) => finished_empty(n) && a is Done,
            QueryEvent::ChapterRows(Some(rows)) => {
                &&& n matches VerseQuery::Finished { verses, parsed }
                &&& verses_of_rows(verses@, translation@, book_name@, rows@)
                &&& parsed matches Some(p) && p.book_name@ == book_name@ && p.chapter == chapter
                    && p.verse == verse && p.max_chapter == max_chapter && p.max_verse
                    == max_verse
                &&& a is Done
            },
            _ => false,
        },
        VerseQuery::Finished { .. } => false,
    }
}

impl VerseQuery {
    /// A query for `search_query` in `translation`, by keyword or by reference; its
    /// first action is `QueryAction::OpenDatabase`.
    pub fn new(search_query: &str, translation: &str, search_by_keyword: bool) -> (r: (
        VerseQuery,
        QueryAction,
    ))
        ensures
            r.0 matches VerseQuery::Opening { query, translation: tr, by_keyword } && query@
                == search_query@ && tr@ == translation@ && by_keyword == search_by_keyword,
            r.1 is OpenDatabase,
    {
        (
            VerseQuery::Opening {
                query: string_of(&chars_of(search_query)),
                translation: string_of(&chars_of(translation)),
                by_keyword: search_by_keyword,
            },
            QueryAction::OpenDatabase,
        )
    }

    /// The next state and action after the database's answer `event`.
    pub fn step(self, event: QueryEvent) -> (r: (VerseQuery, QueryAction))
        requires
            accepts(self, event),
        ensures
            is_step(self, event, r.0, r.1),
    {
        match self {
            VerseQuery::Opening { query, translation, by_keyword } => {
                let ok = match event {
                    QueryEvent::Opened(ok) => ok,
                    _ => false,
                };
                if !ok {
                    return (VerseQuery::Finished { verses: Vec::new(), parsed: None }, QueryAction::Done);
                }
                let v = chars_of(query.as_str());
                let (a, b) = trim_range(&v, 0, v.len());
                assert(v@.subrange(0, v@.len() as int) =~= v@);
                if a == b {
                    return (VerseQuery::LoadingDefault { translation }, QueryAction::LoadDefaultChapter);
                }
                let mut t: Vec<char> = Vec::new();
                let mut i = a;
                while i < b
                    invariant
                        a <= i <= b <= v@.len(),
                        t@ == v@.subrange(a as int, i as int),
                    decreases b - i,
                {
                    assert(v@.subrange(a as int, i + 1) =~= v@.subrange(a as int, i as int).push(
                        v@[i as int],
                    ));
                    t.push(v[i]);
                    i = i + 1;
                }
                if by_keyword {
                    let pattern = make_contains_pattern(&t);
                    return (
                        VerseQuery::Searching { translation, clean: false },
                        QueryAction::SearchText { pattern },
                    );
                }
                let text = string_of(&t);
                let (book, chapter, verse) = parse_reference(text.as_str());
                let pattern = make_prefix_pattern(book.as_str());
                (
                    VerseQuery::FindingBook { translation, text, chapter, verse },
                    QueryAction::FindBook { pattern },
                )
            },
            VerseQuery::LoadingDefault { translation } => {
                let verses = match event {
                    QueryEvent::DefaultChapter(Some((name, rows))) => chapter_verses(
                        translation.as_str(),
                        name.as_str(),
                        &rows,
                    ),
                    _ => Vec::new(),
                };
                (
                    VerseQuery::Finished { verses, parsed: Some(default_ref()) },
                    QueryAction::Done,
                )
            },
            VerseQuery::Searching { translation, clean } => {
                let verses = match event {
                    QueryEvent::TextRows(rows) => text_verses(translation.as_str(), &rows, clean),
                    _ => Vec::new(),
                };
                (VerseQuery::Finished { verses, parsed: None }, QueryAction::Done)
            },
            VerseQuery::FindingBook { translation, text, chapter, verse } => {
                match event {
                    QueryEvent::Book(Some((id, name))) => (
                        VerseQuery::ReadingMaxChapter {
                            translation,
                            text,
                            book_id: id,
                            book_name: name,
                            chapter,
                            verse,
                        },
                        QueryAction::MaxChapter { book_id: id },
                    ),
                    _ => {
                        let pattern = make_contains_pattern(&chars_of(text.as_str()));
                        (
                            VerseQuery::Searching { translation, clean: true },
                            QueryAction::SearchText { pattern },
                        )
                    },
                }
            },
            VerseQuery::ReadingMaxChapter { translation, book_id, book_name, chapter, verse, .. } => {
                let mc = match event {
                    QueryEvent::Max(Some(m)) => m,
                    _ => 1,
                };
                let c = match chapter {
                    Some(x) => clamp_i32(x, 1, mc),
                    None => 1,
                };
                (
                    VerseQuery::ReadingMaxVerse {
                        translation,
                        book_id,
                        book_name,
                        chapter: c,
                        max_chapter: mc,
                        verse,
                    },
                    QueryAction::MaxVerse { book_id, chapter: c },
                )
            },
            VerseQuery::ReadingMaxVerse {
                translation,
                book_id,
                book_name,
                chapter,
                max_chapter,
                verse,
            } => {
                let mv = match event {
                    QueryEvent::Max(Some(m)) => m,
                    _ => 1,
                };
                let v = match verse {
                    Some(x) => Some(clamp_i32(x, 1, mv)),
                    None => None,
                };
                (
                    VerseQuery::ReadingChapter {
                        translation,
                        book_id,
                        book_name,
                        chapter,
                        verse: v,
                        max_chapter,
                        max_verse: mv,
                    },
                    QueryAction::FetchChapter { book_id, chapter },
                )
            },
            VerseQuery::ReadingChapter {
                translation,
                book_name,
                chapter,
                verse,
                max_chapter,
                max_verse,
                ..
            } => {
                match event {
                    QueryEvent::ChapterRows(Some(rows)) => {
                        let verses = chapter_verses(translation.as_str(), book_name.as_str(), &rows);
                        (
                            VerseQuery::Finished {
                                verses,
                                parsed: Some(
                                    ParsedRef {
                                        book_name,
                                        chapter,
                                        verse,
                                        max_chapter,
                                        max_verse,
                                    },
                                ),
                            },
                            QueryAction::Done,
                        )
                    },
                    _ => (VerseQuery::Finished { verses: Vec::new(), parsed: None }, QueryAction::Done),
                }
            },
            VerseQuery::Finished { verses, parsed } => (
                VerseQuery::Finished { verses, parsed },
                QueryAction::Done,
            ),
        }
    }

    /// The verses and the reference of a finished query.
    pub fn into_result(self) -> (r: (Vec<Verse>, Option<ParsedRef>))
        requires
            is_finished(self),
        ensures
            self matches VerseQuery::Finished { verses, parsed } && r.0 == verses && r.1
                == parsed,
    {
        match self {
            VerseQuery::Finished { verses, parsed } => (verses, parsed),
            _ => (Vec::new(), None),
        }
    }
}

} // verus!

verus! {

/// The number after the last `:` of a reference, where there is one.
pub open spec fn spec_reference_verse_number(reference: Seq<char>) -> Option<i32> {
    match rfind(reference, ':') {
        Some(ci) => parse_i32(reference.subrange(ci + 1, reference.len() as int)),
        None => None,
    }
}

/// The verse number of a reference `Book C:V`: the number after its last `:`.
pub fn reference_verse_number(reference: &str) -> (r: Option<i32>)
    ensures
        r == spec_reference_verse_number(reference@),
{
    let v = chars_of(reference);
    match rfind_range(&v, 0, v.len(), ':') {
        Some(ci) => {
            assert(v@.subrange(0, v@.len() as int) =~= v@);
            parse_i32_range(&v, ci + 1, v.len())
        },
        None => {
            assert(v@.subrange(0, v@.len() as int) =~= v@);
            None
        },
    }
}

/// A reference as the verse table writes it is read back by `parse_reference`:
/// the book, the chapter and the verse, for any book name that has no whitespace at
/// either end and does not start with `=`.
pub proof fn law_parse_reads_written_reference(book: Seq<char>, chapter: i32, verse: i32)
    requires
        book.len() > 0,
        !is_ws(book[0]),
        !is_ws(book.last()),
        book[0] != '=',
    ensures
        spec_parse_reference(fmt_reference(book, chapter, verse)) == (
            book,
            Some(chapter),
            Some(verse),
        ),
{
    let dc = fmt_i32(chapter);
    let dv = fmt_i32(verse);
    lemma_fmt_i32_shape(chapter);
    lemma_fmt_i32_shape(verse);
    lemma_parse_fmt_i32(chapter);
    lemma_parse_fmt_i32(verse);
    let left = book + seq![' '] + dc;
    let q = left + seq![':'] + dv;
    assert(fmt_reference(book, chapter, verse) =~= q);
    assert(q[0] == book[0]);
    assert(q.last() == dv.last());
    lemma_trim_id(q);
    assert(search_text(q) == q);
    assert forall|i: int| 0 <= i < dv.len() implies dv[i] != ':' by {
        assert(is_digit(dv[i]) || dv[i] == '-');
    }
    lemma_rfind_split(left, ':', dv);
    let ci = left.len() as int;
    assert(q.subrange(ci + 1, q.len() as int) =~= dv);
    lemma_trim_id(dv);
    assert(q.subrange(0, ci) =~= left);
    assert(left[0] == book[0]);
    assert(left.last() == dc.last());
    lemma_trim_id(left);
    assert forall|i: int| 0 <= i < dc.len() implies dc[i] != ' ' by {
        assert(is_digit(dc[i]) || dc[i] == '-');
    }
    lemma_rfind_split(book, ' ', dc);
    assert(left.subrange(book.len() as int, left.len() as int) =~= seq![' '] + dc);
    lemma_trim_leading_space(dc);
    assert(left.subrange(0, book.len() as int) =~= book);
    lemma_trim_id(book);
}

/// The verse number of a written reference is the verse written, whatever the book.
pub proof fn law_verse_number_of_written_reference(book: Seq<char>, chapter: i32, verse: i32)
    ensures
        spec_reference_verse_number(fmt_reference(book, chapter, verse)) == Some(verse),
{
    let dv = fmt_i32(verse);
    lemma_fmt_i32_shape(verse);
    lemma_parse_fmt_i32(verse);
    let left = book + seq![' '] + fmt_i32(chapter);
    assert(fmt_reference(book, chapter, verse) =~= left + seq![':'] + dv);
    assert forall|i: int| 0 <= i < dv.len() implies dv[i] != ':' by {
        assert(is_digit(dv[i]) || dv[i] == '-');
    }
    lemma_rfind_split(left, ':', dv);
    assert((left + seq![':'] + dv).subrange(left.len() + 1int, (left + seq![':'] + dv).len() as int)
        =~= dv);
}


/// A chapter asked for is brought inside the book: the chapter read lies in
/// `1..=max_chapter`, and one asked for inside that range is kept.
pub proof fn law_chapter_lands_in_book(q: VerseQuery, e: QueryEvent, n: VerseQuery, a: QueryAction)
    requires
        q matches VerseQuery::ReadingMaxChapter { chapter: Some(_), .. },
        accepts(q, e),
        is_step(q, e, n, a),
    ensures
        match (q, n) {
            (
                VerseQuery::ReadingMaxChapter { chapter: Some(x), .. },
                VerseQuery::ReadingMaxVerse { chapter, max_chapter, .. },
            ) => 1 <= chapter <= max_chapter && (1 <= x <= max_chapter ==> chapter == x),
            _ => false,
        },
{
}

/// A verse asked for is brought inside the chapter: the verse kept lies in
/// `1..=max_verse`, and one asked for inside that range is kept as it is.
pub proof fn law_verse_lands_in_chapter(q: VerseQuery, e: QueryEvent, n: VerseQuery, a: QueryAction)
    requires
        q matches VerseQuery::ReadingMaxVerse { verse: Some(_), .. },
        accepts(q, e),
        is_step(q, e, n, a),
    ensures
        match (q, n) {
            (
                VerseQuery::ReadingMaxVerse { verse: Some(x), .. },
                VerseQuery::ReadingChapter { verse: Some(v), max_verse, .. },
            ) => 1 <= v <= max_verse && (1 <= x <= max_verse ==> v == x),
            _ => false,
        },
{
}

} // verus!

verus! {

/// Whitespace around a query changes nothing in how it reads; nor does one `=`
/// (after any whitespace) in front of a query whose trimmed text does not itself
/// start with `=`.
pub proof fn law_parse_ignores_padding_and_equals(w1: Seq<char>, s: Seq<char>, w2: Seq<char>)
    requires
        all_ws(w1),
        all_ws(w2),
    ensures
        spec_parse_reference(w1 + s + w2) == spec_parse_reference(s),
        !(trim(s).len() > 0 && trim(s)[0] == '=') ==> spec_parse_reference(w1 + seq!['='] + s)
            == spec_parse_reference(s),
{
    lemma_trim_ws_around(w1, s, w2);
    let e = Seq::<char>::empty();
    let q = seq!['='] + s;
    lemma_trim_ws_around(w1, q, e);
    assert(w1 + q + e =~= w1 + seq!['='] + s);
    lemma_trim_start_append(seq!['='], s);
    assert(!all_ws(seq!['=']));
    assert(trim_start(seq!['=']) =~= seq!['=']);
    lemma_trim_end_prepend('=', s);
    let t = trim(q);
    assert(t == seq!['='] + trim_end(s));
    assert(t.drop_first() =~= trim_end(s));
    lemma_trim_of_trim_end(s);
}

/// Words joined by single spaces split back into those words.
pub proof fn lemma_split_join(words: Seq<Seq<char>>)
    requires
        words.len() > 0,
        forall|i: int| 0 <= i < words.len() ==> is_word(#[trigger] words[i]),
    ensures
        split_ws(join(words, seq![' '])) == words,
    decreases words.len(),
{
    if words.len() == 1 {
        lemma_split_word(words[0]);
        assert(seq![words[0]] =~= words);
    } else {
        lemma_split_join(words.drop_last());
        lemma_split_space_word(join(words.drop_last(), seq![' ']), words.last());
        assert(words.drop_last().push(words.last()) =~= words);
    }
}

/// Words joined by single spaces: the result starts with the first word's first
/// character, and holds no character other than a space that no word holds.
pub proof fn lemma_join_chars(words: Seq<Seq<char>>, c: char)
    requires
        words.len() > 0,
        forall|i: int| 0 <= i < words.len() ==> is_word(#[trigger] words[i]),
    ensures
        join(words, seq![' ']).len() > 0,
        join(words, seq![' '])[0] == words[0][0],
        c != ' ' && (forall|i: int, k: int|
            0 <= i < words.len() && 0 <= k < words[i].len() ==> #[trigger] words[i][k] != c) ==> (
        forall|j: int| 0 <= j < join(words, seq![' ']).len() ==> #[trigger] join(words, seq![' '])[j]
            != c),
    decreases words.len(),
{
    if words.len() > 1 {
        let d = words.drop_last();
        lemma_join_chars(d, c);
        let jd = join(d, seq![' ']);
        let w = words.last();
        assert(join(words, seq![' ']) == jd + seq![' '] + w);
        assert((jd + seq![' '] + w)[0] == jd[0]);
        if c != ' ' && (forall|i: int, k: int|
            0 <= i < words.len() && 0 <= k < words[i].len() ==> #[trigger] words[i][k] != c) {
            assert forall|i: int, k: int| 0 <= i < d.len() && 0 <= k < d[i].len() implies #[trigger] d[i][k]
                != c by {
                assert(d[i] == words[i]);
            }
            assert forall|j: int| 0 <= j < (jd + seq![' '] + w).len() implies #[trigger] (jd + seq![' ']
                + w)[j] != c by {
                if j < jd.len() {
                    assert((jd + seq![' '] + w)[j] == jd[j]);
                } else if j > jd.len() {
                    assert((jd + seq![' '] + w)[j] == w[j - jd.len() - 1]);
                    assert(w == words[words.len() - 1]);
                }
            }
        }
    }
}

/// A written number is a word without `:`.
proof fn lemma_number_word(v: i32)
    ensures
        is_word(fmt_i32(v)),
        forall|i: int| 0 <= i < fmt_i32(v).len() ==> #[trigger] fmt_i32(v)[i] != ':',
        !is_ws(fmt_i32(v).last()),
        parse_i32(fmt_i32(v)) == Some(v),
{
    lemma_fmt_i32_shape(v);
    lemma_parse_fmt_i32(v);
    assert forall|i: int| 0 <= i < fmt_i32(v).len() implies !is_ws(#[trigger] fmt_i32(v)[i])
        && fmt_i32(v)[i] != ':' by {
        assert(is_digit(fmt_i32(v)[i]) || fmt_i32(v)[i] == '-');
    }
}

/// A book name of words joined by single spaces, then a chapter and perhaps a verse
/// after single spaces, reads back as that book, chapter and verse: where no word
/// holds a `:`, the name does not start with `=`, and its last word is not a number.
pub proof fn law_parse_reads_book_and_numbers(words: Seq<Seq<char>>, chapter: i32, verse: i32)
    requires
        words.len() > 0,
        forall|i: int| 0 <= i < words.len() ==> is_word(#[trigger] words[i]),
        forall|i: int, k: int|
            0 <= i < words.len() && 0 <= k < words[i].len() ==> #[trigger] words[i][k] != ':',
        words[0][0] != '=',
        parse_i32(words.last()) is None,
    ensures
        spec_parse_reference(join(words, seq![' ']) + seq![' '] + fmt_i32(chapter)) == (
            join(words, seq![' ']),
            Some(chapter),
            None::<i32>,
        ),
        spec_parse_reference(
            join(words, seq![' ']) + seq![' '] + fmt_i32(chapter) + seq![' '] + fmt_i32(verse),
        ) == (join(words, seq![' ']), Some(chapter), Some(verse)),
{
    let b = join(words, seq![' ']);
    let fc = fmt_i32(chapter);
    let fv = fmt_i32(verse);
    lemma_join_chars(words, ':');
    lemma_split_join(words);
    lemma_number_word(chapter);
    lemma_number_word(verse);
    assert(is_word(words[0]));
    let q1 = b + seq![' '] + fc;
    let q2 = q1 + seq![' '] + fv;
    lemma_split_space_word(b, fc);
    lemma_split_space_word(q1, fv);
    let p1 = words.push(fc);
    let p2 = p1.push(fv);
    assert(split_ws(q1) == p1);
    assert(split_ws(q2) == p2);
    assert forall|j: int| 0 <= j < q1.len() implies #[trigger] q1[j] != ':' by {
        if j < b.len() {
            assert(q1[j] == b[j]);
        } else if j > b.len() {
            assert(q1[j] == fc[j - b.len() - 1]);
        }
    }
    assert forall|j: int| 0 <= j < q2.len() implies #[trigger] q2[j] != ':' by {
        if j < q1.len() {
            assert(q2[j] == q1[j]);
        } else if j > q1.len() {
            assert(q2[j] == fv[j - q1.len() - 1]);
        }
    }
    lemma_rfind_none(q1, ':');
    lemma_rfind_none(q2, ':');
    assert(q1[0] == b[0]);
    assert(q2[0] == b[0]);
    assert(q1.last() == fc.last());
    assert(q2.last() == fv.last());
    lemma_trim_id(q1);
    lemma_trim_id(q2);
    assert(search_text(q1) == q1);
    assert(search_text(q2) == q2);
    assert(p1[p1.len() - 2] == words.last());
    assert(p1.take(p1.len() - 1) =~= words);
    assert(p2.take(p2.len() - 2) =~= words);
    assert(p2[p2.len() - 1] == fv);
    assert(p2[p2.len() - 2] == fc);
}

/// No `<` is followed, anywhere after it, by a `>`.
pub open spec fn no_closed_tag(s: Seq<char>) -> bool {
    forall|i: int, j: int| 0 <= i < j < s.len() && #[trigger] s[i] == '<' ==> #[trigger] s[j] != '>'
}

/// `c` occurs nowhere in `s`.
pub open spec fn lacks(s: Seq<char>, c: char) -> bool {
    forall|i: int| 0 <= i < s.len() ==> #[trigger] s[i] != c
}

/// What `strip_tags` leaves holds no closed tag.
pub proof fn lemma_strip_tags_leaves_no_tag(s: Seq<char>)
    ensures
        no_closed_tag(strip_tags(s)),
    decreases s.len(),
{
    lemma_find(s, '<');
    match find(s, '<') {
        None => {},
        Some(st) => {
            lemma_find(s.skip(st), '>');
            match find(s.skip(st), '>') {
                Some(e) => {
                    lemma_strip_tags_leaves_no_tag(s.take(st) + s.skip(st + e + 1));
                },
                None => {
                    assert forall|i: int, j: int|
                        0 <= i < j < s.len() && #[trigger] s[i] == '<' implies #[trigger] s[j]
                        != '>' by {
                        assert(i >= st);
                        assert(s[j] == s.skip(st)[j - st]);
                    }
                },
            }
        },
    }
}

/// A text without closed tags is left as it is by `strip_tags`.
pub proof fn lemma_strip_tags_id(s: Seq<char>)
    requires
        no_closed_tag(s),
    ensures
        strip_tags(s) == s,
{
    lemma_find(s, '<');
    if let Some(st) = find(s, '<') {
        lemma_find(s.skip(st), '>');
        if let Some(e) = find(s.skip(st), '>') {
            assert(s.skip(st)[e] == s[st + e]);
            assert(s[st] == '<');
            assert(e != 0);
            assert(s[st + e] != '>');
        }
    }
}

/// Dropping brackets keeps a text free of closed tags, and of a character it
/// lacks; it leaves no bracket.
pub proof fn lemma_drop_brackets_keeps(s: Seq<char>, c: char)
    ensures
        no_closed_tag(s) ==> no_closed_tag(drop_brackets(s)),
        lacks(s, c) ==> lacks(drop_brackets(s), c),
        lacks(drop_brackets(s), '['),
        lacks(drop_brackets(s), ']'),
    decreases s.len(),
{
    if s.len() > 0 {
        let d = s.drop_last();
        lemma_drop_brackets_keeps(d, c);
        lemma_drop_brackets_keeps(d, '<');
        let dd = drop_brackets(d);
        if no_closed_tag(s) {
            assert forall|i: int, j: int|
                0 <= i < j < d.len() && #[trigger] d[i] == '<' implies #[trigger] d[j] != '>' by {
                assert(s[i] == d[i] && s[j] == d[j]);
            }
            if s.last() == '>' {
                assert forall|i: int| 0 <= i < d.len() implies #[trigger] d[i] != '<' by {
                    assert(s[i] == d[i]);
                    assert(s[s.len() - 1] == s.last());
                }
            }
        }
        if lacks(s, c) {
            assert forall|i: int| 0 <= i < d.len() implies #[trigger] d[i] != c by {
                assert(s[i] == d[i]);
            }
            assert(s[s.len() - 1] != c);
        }
        if !(s.last() == '[' || s.last() == ']') {
            let r = dd.push(s.last());
            assert(drop_brackets(s) == r);
            if no_closed_tag(s) {
                assert forall|i: int, j: int|
                    0 <= i < j < r.len() && #[trigger] r[i] == '<' implies #[trigger] r[j] != '>' by {
                    assert(r[i] == dd[i]);
                    if j < dd.len() {
                        assert(r[j] == dd[j]);
                    }
                }
            }
            assert forall|i: int| 0 <= i < r.len() implies #[trigger] r[i] != '[' && r[i] != ']' by {
                if i < dd.len() {
                    assert(r[i] == dd[i]);
                }
            }
            if lacks(s, c) {
                assert forall|i: int| 0 <= i < r.len() implies #[trigger] r[i] != c by {
                    if i < dd.len() {
                        assert(r[i] == dd[i]);
                    }
                }
            }
        }
    }
}

/// A text without brackets is left as it is by `drop_brackets`.
pub proof fn lemma_drop_brackets_id(s: Seq<char>)
    requires
        lacks(s, '['),
        lacks(s, ']'),
    ensures
        drop_brackets(s) == s,
    decreases s.len(),
{
    if s.len() > 0 {
        let d = s.drop_last();
        assert forall|i: int| 0 <= i < d.len() implies #[trigger] d[i] != '[' && d[i] != ']' by {
            assert(s[i] == d[i]);
        }
        lemma_drop_brackets_id(d);
        assert(s[s.len() - 1] == s.last());
        assert(d.push(s.last()) =~= s);
    }
}

/// `trim_start(s)` is what follows some prefix of `s`.
pub proof fn lemma_trim_start_suffix(s: Seq<char>)
    ensures
        trim_start(s).len() <= s.len(),
        trim_start(s) == s.skip(s.len() - trim_start(s).len()),
    decreases s.len(),
{
    if s.len() > 0 && is_ws(s[0]) {
        lemma_trim_start_suffix(s.drop_first());
        assert(s.drop_first().skip(s.drop_first().len() - trim_start(s.drop_first()).len())
            =~= s.skip(s.len() - trim_start(s).len()));
    } else {
        assert(s.skip(0) =~= s);
    }
}

/// Trimming keeps a text free of closed tags, and of a character it lacks.
pub proof fn lemma_trim_keeps(s: Seq<char>, c: char)
    ensures
        no_closed_tag(s) ==> no_closed_tag(trim(s)),
        lacks(s, c) ==> lacks(trim(s), c),
{
    lemma_trim_start_suffix(s);
    let y = trim_start(s);
    let k = s.len() - y.len();
    lemma_trim_end_split(y);
    let z = trim_end(y);
    assert forall|i: int| 0 <= i < z.len() implies #[trigger] z[i] == s[k + i] by {
        assert(z[i] == (z + y.skip(z.len() as int))[i]);
        assert(y[i] == s.skip(k)[i]);
    }
    if no_closed_tag(s) {
        assert forall|i: int, j: int|
            0 <= i < j < z.len() && #[trigger] z[i] == '<' implies #[trigger] z[j] != '>' by {
            assert(z[i] == s[k + i] && z[j] == s[k + j]);
        }
    }
    if lacks(s, c) {
        assert forall|i: int| 0 <= i < z.len() implies #[trigger] z[i] != c by {
            assert(z[i] == s[k + i]);
        }
    }
}

/// Cleaning a cleaned verse text changes nothing.
pub proof fn law_clean_verse_text_idempotent(raw: Seq<char>)
    ensures
        spec_clean_verse_text(spec_clean_verse_text(raw)) == spec_clean_verse_text(raw),
{
    let a = strip_tags(raw);
    lemma_strip_tags_leaves_no_tag(raw);
    let d = drop_brackets(a);
    lemma_drop_brackets_keeps(a, '<');
    let x = trim(d);
    lemma_trim_keeps(d, '[');
    lemma_trim_keeps(d, ']');
    lemma_strip_tags_id(x);
    lemma_drop_brackets_id(x);
    lemma_trim_idempotent(d);
}

/// A closed tag at the start of a verse text is removed whole, whatever it holds.
pub proof fn law_clean_removes_leading_tag(t: Seq<char>, s: Seq<char>)
    requires
        lacks(t, '>'),
    ensures
        spec_clean_verse_text(seq!['<'] + t + seq!['>'] + s) == spec_clean_verse_text(s),
{
    let q = seq!['<'] + t + seq!['>'] + s;
    let k = t.len() as int + 1;
    lemma_find_at(q, '<', 0);
    assert(q.skip(0) =~= q);
    assert forall|j: int| 0 <= j < k implies q[j] != '>' by {
        if j > 0 {
            assert(q[j] == t[j - 1]);
        }
    }
    lemma_find_at(q, '>', k);
    assert(q.take(0) + q.skip(0 + k + 1) =~= s);
    assert(strip_tags(q) == strip_tags(s));
}

} // verus!

verus! {

/// The translation a query in progress was made with (none once finished).
pub open spec fn query_translation(q: VerseQuery) -> Option<Seq<char>> {
    match q {
        VerseQuery::Opening { translation, .. } => Some(translation@),
        VerseQuery::LoadingDefault { translation } => Some(translation@),
        VerseQuery::Searching { translation, .. } => Some(translation@),
        VerseQuery::FindingBook { translation, .. } => Some(translation@),
        VerseQuery::ReadingMaxChapter { translation, .. } => Some(translation@),
        VerseQuery::ReadingMaxVerse { translation, .. } => Some(translation@),
        VerseQuery::ReadingChapter { translation, .. } => Some(translation@),
        VerseQuery::Finished { .. } => None,
    }
}

/// A query keeps the translation it was made with from step to step, and every
/// verse it finishes with is labelled with that translation, whichever way it went
/// (Genesis 1, a keyword search, a chapter read by reference).
pub proof fn law_query_verses_carry_translation(
    q: VerseQuery,
    e: QueryEvent,
    n: VerseQuery,
    a: QueryAction,
)
    requires
        is_step(q, e, n, a),
    ensures
        query_translation(q) is Some,
        match n {
            VerseQuery::Finished { verses, .. } => forall|i: int|
                0 <= i < verses@.len() ==> (#[trigger] verses@[i]).translation@ == query_translation(
                    q,
                )->0,
            _ => query_translation(n) == query_translation(q),
        },
{
    match n {
        VerseQuery::Finished { verses, .. } => {
            assert forall|i: int| 0 <= i < verses@.len() implies (#[trigger] verses@[i]).translation@
                == query_translation(q)->0 by {
                match q {
                    VerseQuery::LoadingDefault { .. } => {},
                    VerseQuery::Searching { .. } => {},
                    VerseQuery::ReadingChapter { .. } => {},
                    _ => {},
                }
            }
        },
        _ => {},
    }
}

/// A chapter read by reference gives one verse per row, in order, each referred to
/// as `Book C:V` of the book found, whose verse number reads back as the row's.
pub proof fn law_chapter_verses_refer_to_their_rows(
    q: VerseQuery,
    rows: Vec<(i32, i32, String)>,
    n: VerseQuery,
    a: QueryAction,
)
    requires
        q is ReadingChapter,
        is_step(q, QueryEvent::ChapterRows(Some(rows)), n, a),
    ensures
        match (q, n) {
            (
                VerseQuery::ReadingChapter { book_name, .. },
                VerseQuery::Finished { verses, parsed },
            ) => {
                &&& verses@.len() == rows@.len()
                &&& parsed is Some
                &&& forall|i: int|
                    0 <= i < rows@.len() ==> (#[trigger] verses@[i]).reference@ == book_name@
                        + seq![' '] + fmt_i32(rows@[i].0) + seq![':'] + fmt_i32(rows@[i].1)
                        && spec_reference_verse_number(verses@[i].reference@) == Some(rows@[i].1)
            },
            _ => false,
        },
{
    match (q, n) {
        (VerseQuery::ReadingChapter { book_name, .. }, VerseQuery::Finished { verses, .. }) => {
            assert forall|i: int| 0 <= i < rows@.len() implies (#[trigger] verses@[i]).reference@
                == book_name@ + seq![' '] + fmt_i32(rows@[i].0) + seq![':'] + fmt_i32(rows@[i].1)
                && spec_reference_verse_number(verses@[i].reference@) == Some(rows@[i].1) by {
                assert(is_verse_of(verses@[i], q->ReadingChapter_translation@, book_name@, rows@[i].0, rows@[i].1, rows@[i].2@, true));
                law_verse_number_of_written_reference(book_name@, rows@[i].0, rows@[i].1);
            }
        },
        _ => {},
    }
}

} // verus!
