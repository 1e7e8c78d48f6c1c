use church_presenter::scripture::{
    chapter_verses, clamp_i32, clean_verse_text, default_ref, make_contains_pattern,
    make_prefix_pattern, parse_reference, reference_verse_number, text_verses,
    verse_reference, ParsedRef, QueryAction, QueryEvent, Verse, VerseQuery,
};
use rusqlite::{Connection, OptionalExtension};

/// A small Bible: the books and chapters that the tests below look at.
fn test_bible() -> Connection {
    let conn = Connection::open_in_memory().unwrap();
    conn.execute_batch(
        "CREATE TABLE book (id INTEGER PRIMARY KEY, name TEXT NOT NULL);
         CREATE TABLE verse (book_id INTEGER, chapter INTEGER, verse INTEGER, text TEXT);",
    )
    .unwrap();
    let books = [(1, "Genesis", 50, 1, 31), (19, "Psalms", 150, 0, 0), (43, "John", 21, 3, 36),
        (62, "1 John", 5, 0, 0)];
    for (id, name, chapters, full_chapter, full_verses) in books {
        conn.execute("INSERT INTO book (id, name) VALUES (?1, ?2)", (id, name)).unwrap();
        for c in 1..=chapters {
            let n = if c == full_chapter {
                full_verses
            } else if id == 19 && c == 23 {
                6
            } else if id == 19 && c == 119 {
                176
            } else {
                2
            };
            for v in 1..=n {
                let text = format!("<Title {}.> Words of {} {}:{} [selah]", name, name, c, v);
                conn.execute(
                    "INSERT INTO verse (book_id, chapter, verse, text) VALUES (?1, ?2, ?3, ?4)",
                    (id, c, v, text),
                )
                .unwrap();
            }
        }
    }
    conn
}

/// Rows `(chapter, verse, text)` of one chapter.
fn chapter_rows(conn: &Connection, book_id: i32, chapter: i32) -> Option<Vec<(i32, i32, String)>> {
    let mut stmt = conn
        .prepare("SELECT chapter, verse, text FROM verse WHERE book_id = ? AND chapter = ? ORDER BY verse")
        .ok()?;
    let rows = stmt
        .query_map((book_id, chapter), |row| Ok((row.get(0)?, row.get(1)?, row.get(2)?)))
        .ok()?;
    Some(rows.filter_map(|r| r.ok()).collect())
}

/// Answers each action of a verse query from `conn`, as the application does.
fn run_query(conn: &Connection, query: &str, translation: &str, by_keyword: bool) -> (Vec<Verse>, Option<ParsedRef>) {
    let (mut q, mut action) = VerseQuery::new(query, translation, by_keyword);
    loop {
        let event = match action {
            QueryAction::OpenDatabase => QueryEvent::Opened(true),
            QueryAction::LoadDefaultChapter => {
                let book: Option<(i32, String)> = conn
                    .query_row("SELECT id, name FROM book WHERE name = 'Genesis' LIMIT 1", [], |row| {
                        Ok((row.get(0)?, row.get(1)?))
                    })
                    .ok();
                QueryEvent::DefaultChapter(book.and_then(|(id, name)| chapter_rows(conn, id, 1).map(|r| (name, r))))
            }
            QueryAction::SearchText { pattern } => {
                let mut stmt = conn
                    .prepare(
                        "SELECT v.chapter, v.verse, v.text, b.name FROM verse v JOIN book b ON v.book_id = b.id WHERE v.text LIKE ? ORDER BY b.id, v.chapter, v.verse LIMIT 100",
                    )
                    .unwrap();
                let rows: Vec<(i32, i32, String, String)> = stmt
                    .query_map((pattern,), |row| Ok((row.get(0)?, row.get(1)?, row.get(2)?, row.get(3)?)))
                    .unwrap()
                    .filter_map(|r| r.ok())
                    .collect();
                QueryEvent::TextRows(rows)
            }
            QueryAction::FindBook { pattern } => QueryEvent::Book(
                conn.query_row(
                    "SELECT id, name FROM book WHERE name LIKE ? ORDER BY id LIMIT 1",
                    (pattern,),
                    |row| Ok((row.get(0)?, row.get(1)?)),
                )
                .optional()
                .unwrap(),
            ),
            QueryAction::MaxChapter { book_id } => QueryEvent::Max(
                conn.query_row("SELECT MAX(chapter) FROM verse WHERE book_id = ?", (book_id,), |row| {
                    row.get::<_, Option<i32>>(0)
                })
                .ok()
                .flatten(),
            ),
            QueryAction::MaxVerse { book_id, chapter } => QueryEvent::Max(
                conn.query_row(
                    "SELECT MAX(verse) FROM verse WHERE book_id = ? AND chapter = ?",
                    (book_id, chapter),
                    |row| row.get::<_, Option<i32>>(0),
                )
                .ok()
                .flatten(),
            ),
            QueryAction::FetchChapter { book_id, chapter } => {
                QueryEvent::ChapterRows(chapter_rows(conn, book_id, chapter))
            }
            QueryAction::Done => return q.into_result(),
        };
        let (next, next_action) = q.step(event);
        q = next;
        action = next_action;
    }
}

fn query_verses_by_mode_with_ref(query: &str, translation: &str, by_keyword: bool) -> (Vec<Verse>, Option<ParsedRef>) {
    run_query(&test_bible(), query, translation, by_keyword)
}

#[test]
fn test_parse_reference_patterns() {
    assert_eq!(parse_reference("John"), ("John".to_string(), None, None));
    assert_eq!(parse_reference("John 3"), ("John".to_string(), Some(3), None));
    assert_eq!(parse_reference("John 3:"), ("John".to_string(), Some(3), None));
    assert_eq!(parse_reference("John 3:16"), ("John".to_string(), Some(3), Some(16)));
    assert_eq!(parse_reference("John 3 16"), ("John".to_string(), Some(3), Some(16)));
    assert_eq!(parse_reference("1 John 3 16"), ("1 John".to_string(), Some(3), Some(16)));
    assert_eq!(parse_reference("Song of Solomon 2 4"), ("Song of Solomon".to_string(), Some(2), Some(4)));
}

#[test]
fn test_query_verses_clamping() {
    let (verses_j3, p_ref) = query_verses_by_mode_with_ref("John 3", "KJV", false);
    assert!(!verses_j3.is_empty());
    let p = p_ref.unwrap();
    assert_eq!(p.book_name, "John");
    assert_eq!(p.chapter, 3);
    assert_eq!(p.verse, None);

    // John has 21 chapters.
    let (verses_j99, p_ref99) = query_verses_by_mode_with_ref("John 99", "KJV", false);
    assert!(!verses_j99.is_empty());
    let p99 = p_ref99.unwrap();
    assert_eq!(p99.book_name, "John");
    assert_eq!(p99.chapter, 21);

    // John 3 has 36 verses.
    let (verses_v99, p_ref_v99) = query_verses_by_mode_with_ref("John 3:99", "KJV", false);
    assert!(!verses_v99.is_empty());
    let pv99 = p_ref_v99.unwrap();
    assert_eq!(pv99.book_name, "John");
    assert_eq!(pv99.chapter, 3);
    assert_eq!(pv99.verse, Some(36));
}

#[test]
fn test_psalms_queries() {
    let (v1, p1) = query_verses_by_mode_with_ref("Psalm 23", "KJV", false);
    assert!(!v1.is_empty());
    assert_eq!(p1.unwrap().book_name, "Psalms");

    let (v2, p2) = query_verses_by_mode_with_ref("Psalms 23:1", "KJV", false);
    assert!(!v2.is_empty());
    assert_eq!(p2.unwrap().verse, Some(1));

    // Psalm 119 has 176 verses.
    let (v3, p3) = query_verses_by_mode_with_ref("Psalm 119:200", "KJV", false);
    assert!(!v3.is_empty());
    let p3_ref = p3.unwrap();
    assert_eq!(p3_ref.chapter, 119);
    assert_eq!(p3_ref.verse, Some(176));
}

#[test]
fn test_clean_verse_text() {
    let raw = "<A Song of degrees of David.> I was glad when they said unto me...";
    assert_eq!(clean_verse_text(raw), "I was glad when they said unto me...");
}

#[test]
fn clean_verse_text_drops_brackets_and_trims() {
    assert_eq!(clean_verse_text("In the [beginning] God  "), "In the beginning God");
    assert_eq!(clean_verse_text("  <Title> <Second> text"), "text");
    assert_eq!(clean_verse_text("no tags"), "no tags");
    assert_eq!(clean_verse_text(""), "");
}

#[test]
fn parse_reference_edge_cases() {
    assert_eq!(parse_reference("  John 3:16  "), ("John".to_string(), Some(3), Some(16)));
    assert_eq!(parse_reference("John 3:x"), ("John".to_string(), Some(3), None));
    assert_eq!(parse_reference("Genesis 1:-2"), ("Genesis".to_string(), Some(1), Some(-2)));
    assert_eq!(parse_reference(""), (String::new(), None, None));
}

#[test]
fn written_reference_is_read_back() {
    for (book, c, v) in [("Song of Solomon", 2, 4), ("1 John", 3, 16), ("Psalms", 119, 176), ("Jude", 1, -1)] {
        let written = verse_reference(book, c, v);
        assert_eq!(parse_reference(&written), (book.to_string(), Some(c), Some(v)));
        assert_eq!(reference_verse_number(&written), Some(v));
    }
    assert_eq!(verse_reference("John", 3, 16), "John 3:16");
}

#[test]
fn reference_verse_number_cases() {
    assert_eq!(reference_verse_number("John 3:16"), Some(16));
    assert_eq!(reference_verse_number("John 3"), None);
    assert_eq!(reference_verse_number("A:1:2"), Some(2));
    assert_eq!(reference_verse_number("John 3:99999999999"), None);
}

#[test]
fn clamp_and_patterns() {
    assert_eq!(clamp_i32(99, 1, 21), 21);
    assert_eq!(clamp_i32(-5, 1, 21), 1);
    assert_eq!(clamp_i32(7, 1, 21), 7);
    assert_eq!(make_prefix_pattern("Psalm"), "Psalm%");
    assert_eq!(make_contains_pattern(&"glad".chars().collect()), "%glad%");
}

#[test]
fn default_reference_is_genesis_one() {
    let d = default_ref();
    assert_eq!(d.book_name, "Genesis");
    assert_eq!((d.chapter, d.verse, d.max_chapter, d.max_verse), (1, None, 50, 31));
}

#[test]
fn verses_from_rows() {
    let rows = vec![(3, 16, "<T> For God [so] loved".to_string())];
    let vs = chapter_verses("KJV", "John", &rows);
    assert_eq!(vs, vec![Verse {
        translation: "KJV".to_string(),
        reference: "John 3:16".to_string(),
        text: "For God so loved".to_string(),
    }]);
    let rows = vec![(1, 1, "<T> In [the]".to_string(), "Genesis".to_string())];
    assert_eq!(text_verses("KJV", &rows, false)[0].text, "<T> In the");
    assert_eq!(text_verses("KJV", &rows, true)[0].text, "In the");
}

#[test]
fn empty_query_shows_genesis_one() {
    let (vs, p) = query_verses_by_mode_with_ref("   ", "KJV", false);
    assert_eq!(vs.len(), 31);
    assert_eq!(vs[0].reference, "Genesis 1:1");
    assert_eq!(vs[0].text, "Words of Genesis 1:1 selah");
    assert_eq!(p.unwrap().max_chapter, 50);
}

#[test]
fn keyword_query_searches_text() {
    let (vs, p) = query_verses_by_mode_with_ref("John 3:16", "KJV", true);
    assert!(p.is_none());
    assert_eq!(vs.len(), 1);
    assert_eq!(vs[0].reference, "John 3:16");
    assert_eq!(vs[0].text, "<Title John.> Words of John 3:16 selah");
    assert_eq!(vs[0].translation, "KJV");
}

#[test]
fn unknown_book_falls_back_to_text_search() {
    let (vs, p) = query_verses_by_mode_with_ref("Psalms 23:4 ", "KJV", false);
    assert_eq!(p.unwrap().verse, Some(4));
    assert_eq!(vs.len(), 6);
    let (vs, p) = query_verses_by_mode_with_ref("Words of John 21:2", "KJV", false);
    assert!(p.is_none());
    assert_eq!(vs.len(), 1);
    assert_eq!(vs[0].text, "Words of John 21:2 selah");
    let (vs, _) = query_verses_by_mode_with_ref("Exodus 1", "KJV", false);
    assert!(vs.is_empty());
}

#[test]
fn chapter_below_one_is_raised_and_missing_chapter_is_one() {
    let (_, p) = query_verses_by_mode_with_ref("John 0:0", "KJV", false);
    let p = p.unwrap();
    assert_eq!((p.chapter, p.verse, p.max_chapter, p.max_verse), (1, Some(1), 21, 2));
    let (vs, p) = query_verses_by_mode_with_ref("1 John", "KJV", false);
    assert_eq!(p.unwrap().chapter, 1);
    assert_eq!(vs[0].reference, "1 John 1:1");
}

#[test]
fn closed_database_gives_nothing() {
    let (q, a) = VerseQuery::new("John 3", "KJV", false);
    assert_eq!(a, QueryAction::OpenDatabase);
    let (q, a) = q.step(QueryEvent::Opened(false));
    assert_eq!(a, QueryAction::Done);
    assert_eq!(q.into_result(), (vec![], None));
}

#[test]
fn padding_and_one_equals_sign_change_nothing() {
    for s in ["John 3:16", "1 John 3 16", "Song of Solomon", "Psalm 23", "", "   "] {
        assert_eq!(parse_reference(&format!("  {}  ", s)), parse_reference(s));
        assert_eq!(parse_reference(&format!("\t{}\n", s)), parse_reference(s));
        assert_eq!(parse_reference(&format!(" ={}", s)), parse_reference(s));
        assert_eq!(parse_reference(&format!("={}", s)), parse_reference(s));
    }
}

#[test]
fn book_then_numbers_reads_back() {
    for b in ["John", "1 John", "Song of Solomon"] {
        for (c, v) in [(3, 16), (-1, 0), (2147483647, -2147483648)] {
            assert_eq!(parse_reference(&format!("{} {}", b, c)), (b.to_string(), Some(c), None));
            assert_eq!(parse_reference(&format!("{} {} {}", b, c, v)), (b.to_string(), Some(c), Some(v)));
        }
    }
}

#[test]
fn cleaning_twice_is_cleaning_once() {
    for raw in ["<A Song.> I was glad", "<a [b]> c <d", "x > <y", " [<] z >", "<<a>> [b]c", ""] {
        let once = clean_verse_text(raw);
        assert_eq!(clean_verse_text(&once), once, "{:?}", raw);
    }
}

#[test]
fn leading_tag_is_removed_whole() {
    for (t, s) in [("A Song of degrees", " I was glad"), ("<x<y", "text"), ("", " [a] b"), ("t", "<c>d")] {
        assert_eq!(clean_verse_text(&format!("<{}>{}", t, s)), clean_verse_text(s));
    }
}
