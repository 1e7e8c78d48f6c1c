use vstd::prelude::*;

use crate::scripture::{reference_verse_number, spec_reference_verse_number, Verse};
use crate::text::{chars_of, decimal, push_decimal, push_str, string_of};

verus! {

/// The presenter's state: the verse list and its selection, the preview, the slides
/// on the live output and the screen modes.
#[derive(Debug)]
pub struct AppState {
    pub verses: Vec<Verse>,
    pub selected_translation: String,
    pub selected_verse_index: Option<usize>,
    pub selected_song_index: Option<usize>,
    pub selected_stanza_index: Option<usize>,
    /// 0 for Scripture, 1 for a song.
    pub current_selection_type: u8,
    pub live_title: String,
    /// The live slides, each `(header, body)`.
    pub live_slides: Vec<(String, String)>,
    pub live_active_index: Option<usize>,
    pub search_parsed_verse: Option<i32>,
    pub search_by_keyword: bool,
    pub selected_theme: String,
    pub blackout: bool,
    pub clearout: bool,
    pub logo_mode: bool,
    pub go_live_active: bool,
    pub logo_image_path: Option<String>,
    /// Custom themes, each `(name, path)`.
    pub custom_themes: Vec<(String, String)>,
    pub custom_background_path: Option<String>,
    pub preview_header: String,
    pub preview_body: String,
    pub live_current_header: String,
    pub live_current_body: String,
    pub live_prev_header: String,
    pub live_prev_body: String,
    pub default_song_bg_type: String,
    pub default_song_bg_val: Option<String>,
}

/// The verse list and what it was searched with.
pub open spec fn same_search(a: AppState, b: AppState) -> bool {
    &&& a.verses == b.verses
    &&& a.selected_translation == b.selected_translation
    &&& a.search_parsed_verse == b.search_parsed_verse
    &&& a.search_by_keyword == b.search_by_keyword
}

/// What is selected in the resource lists.
pub open spec fn same_selection(a: AppState, b: AppState) -> bool {
    &&& a.selected_verse_index == b.selected_verse_index
    &&& a.selected_song_index == b.selected_song_index
    &&& a.selected_stanza_index == b.selected_stanza_index
    &&& a.current_selection_type == b.current_selection_type
}

/// The preview slide.
pub open spec fn same_preview(a: AppState, b: AppState) -> bool {
    &&& a.preview_header == b.preview_header
    &&& a.preview_body == b.preview_body
}

/// The live slides.
pub open spec fn same_live(a: AppState, b: AppState) -> bool {
    &&& a.live_title == b.live_title
    &&& a.live_slides == b.live_slides
    &&& a.live_active_index == b.live_active_index
}

/// The screen modes.
pub open spec fn same_screen(a: AppState, b: AppState) -> bool {
    &&& a.blackout == b.blackout
    &&& a.clearout == b.clearout
    &&& a.logo_mode == b.logo_mode
    &&& a.go_live_active == b.go_live_active
}

/// The themes and backgrounds.
pub open spec fn same_theme(a: AppState, b: AppState) -> bool {
    &&& a.selected_theme == b.selected_theme
    &&& a.logo_image_path == b.logo_image_path
    &&& a.custom_themes == b.custom_themes
    &&& a.custom_background_path == b.custom_background_path
    &&& a.default_song_bg_type == b.default_song_bg_type
    &&& a.default_song_bg_val == b.default_song_bg_val
}

/// What the live monitor shows and showed before.
pub open spec fn same_monitor(a: AppState, b: AppState) -> bool {
    &&& a.live_current_header == b.live_current_header
    &&& a.live_current_body == b.live_current_body
    &&& a.live_prev_header == b.live_prev_header
    &&& a.live_prev_body == b.live_prev_body
}

/// The header of a verse slide: `Reference (Translation)`.
pub open spec fn verse_header(v: Verse) -> Seq<char> {
    v.reference@ + seq![' ', '('] + v.translation@ + seq![')']
}

/// The header of a song's stanza slide: `Title - Stanza N`, counting from 1.
pub open spec fn stanza_header(title: Seq<char>, i: int) -> Seq<char> {
    title + seq![' ', '-', ' ', 'S', 't', 'a', 'n', 'z', 'a', ' '] + decimal((i + 1) as nat)
}

/// The title of the live panel: `Live - Name`.
pub open spec fn live_title_of(name: Seq<char>) -> Seq<char> {
    seq!['L', 'i', 'v', 'e', ' ', '-', ' '] + name
}

/// Slides that show one verse.
pub open spec fn is_verse_slides(slides: Seq<(String, String)>, v: Verse) -> bool {
    &&& slides.len() == 1
    &&& slides[0].0@ == verse_header(v)
    &&& slides[0].1@ == v.text@
}

/// Slides that show a song's stanzas, one each, in order.
pub open spec fn is_song_slides(
    slides: Seq<(String, String)>,
    title: Seq<char>,
    lyrics: Seq<String>,
) -> bool {
    &&& slides.len() == lyrics.len()
    &&& forall|i: int|
        0 <= i < lyrics.len() ==> (#[trigger] slides[i]).0@ == stanza_header(title, i)
            && slides[i].1@ == lyrics[i]@
}

/// The verse shown live: its slide alone, active, with the title naming it.
pub open spec fn is_live_verse(s: AppState, v: Verse) -> bool {
    &&& is_verse_slides(s.live_slides@, v)
    &&& s.live_title@ == live_title_of(verse_header(v))
    &&& s.live_active_index == Some(0usize)
}

/// The screen modes cleared: neither black, cleared nor logo.
pub open spec fn screen_reset(s: AppState) -> bool {
    !s.blackout && !s.clearout && !s.logo_mode
}

/// Builds `verse_header(v)`.
pub fn verse_slide(v: &Verse) -> (r: (String, String))
    ensures
        r.0@ == verse_header(*v),
        r.1@ == v.text@,
{
    let mut h = chars_of(v.reference.as_str());
    h.push(' ');
    h.push('(');
    let t = chars_of(v.translation.as_str());
    let mut i: usize = 0;
    let ghost before = h@;
    while i < t.len()
        invariant
            i <= t@.len(),
            h@ == before + t@.take(i as int),
        decreases t@.len() - i,
    {
        assert(t@.take(i + 1) =~= t@.take(i as int).push(t@[i as int]));
        h.push(t[i]);
        i = i + 1;
    }
    h.push(')');
    assert(t@.take(t@.len() as int) =~= t@);
    assert(h@ =~= verse_header(*v));
    (string_of(&h), v.text.clone())
}

/// Builds `stanza_header(title, i)`.
pub fn stanza_slide_header(title: &str, i: usize) -> (r: String)
    requires
        i < usize::MAX,
    ensures
        r@ == stanza_header(title@, i as int),
{
    let mut h = chars_of(title);
    h.push(' ');
    h.push('-');
    h.push(' ');
    h.push('S');
    h.push('t');
    h.push('a');
    h.push('n');
    h.push('z');
    h.push('a');
    h.push(' ');
    push_decimal(&mut h, (i + 1) as u64);
    assert(h@ =~= stanza_header(title@, i as int));
    string_of(&h)
}

/// Builds `live_title_of(name)`.
pub fn live_title(name: &str) -> (r: String)
    ensures
        r@ == live_title_of(name@),
{
    let mut h: Vec<char> = Vec::new();
    h.push('L');
    h.push('i');
    h.push('v');
    h.push('e');
    h.push(' ');
    h.push('-');
    h.push(' ');
    let n = chars_of(name);
    let mut i: usize = 0;
    while i < n.len()
        invariant
            i <= n@.len(),
            h@ == seq!['L', 'i', 'v', 'e', ' ', '-', ' '] + n@.take(i as int),
        decreases n@.len() - i,
    {
        assert(n@.take(i + 1) =~= n@.take(i as int).push(n@[i as int]));
        h.push(n[i]);
        i = i + 1;
    }
    assert(n@.take(n@.len() as int) =~= n@);
    string_of(&h)
}

/// The slides of a song: one per stanza, headed `Title - Stanza N`.
pub fn song_slides(title: &str, lyrics: &Vec<String>) -> (r: Vec<(String, String)>)
    ensures
        is_song_slides(r@, title@, lyrics@),
{
    let mut r: Vec<(String, String)> = Vec::new();
    let mut i: usize = 0;
    while i < lyrics.len()
        invariant
            i <= lyrics@.len(),
            is_song_slides(r@, title@, lyrics@.take(i as int)),
        decreases lyrics@.len() - i,
    {
        let h = stanza_slide_header(title, i);
        r.push((h, lyrics[i].clone()));
        i = i + 1;
        assert forall|j: int| 0 <= j < i implies (#[trigger] r@[j]).0@ == stanza_header(
            title@,
            j,
        ) && r@[j].1@ == lyrics@.take(i as int)[j]@ by {
            if j < i - 1 {
                assert(lyrics@.take(i - 1)[j] == lyrics@.take(i as int)[j]);
            }
        }
    }
    assert(lyrics@.take(lyrics@.len() as int) =~= lyrics@);
    r
}

} // verus!

verus! {

/// The positions, in order, of the verses of translation `tr`.
pub open spec fn in_translation(vs: Seq<Verse>, tr: Seq<char>) -> Seq<int>
    decreases vs.len(),
{
    if vs.len() == 0 {
        seq![]
    } else if vs.last().translation@ == tr {
        in_translation(vs.drop_last(), tr).push(vs.len() - 1)
    } else {
        in_translation(vs.drop_last(), tr)
    }
}

/// The positions found among the first verses are the first positions found.
pub proof fn lemma_in_translation_prefix(vs: Seq<Verse>, tr: Seq<char>, i: int, j: int)
    requires
        0 <= i <= j <= vs.len(),
    ensures
        in_translation(vs.take(i), tr).len() <= in_translation(vs.take(j), tr).len(),
        forall|k: int|
            0 <= k < in_translation(vs.take(i), tr).len() ==> #[trigger] in_translation(
                vs.take(i),
                tr,
            )[k] == in_translation(vs.take(j), tr)[k],
    decreases j - i,
{
    if i < j {
        lemma_in_translation_prefix(vs, tr, i, j - 1);
        assert(vs.take(j).drop_last() =~= vs.take(j - 1));
    }
}

/// Each position is that of a verse of the translation, and positions grow.
pub proof fn lemma_in_translation_members(vs: Seq<Verse>, tr: Seq<char>)
    ensures
        forall|k: int|
            0 <= k < in_translation(vs, tr).len() ==> 0 <= #[trigger] in_translation(vs, tr)[k]
                < vs.len() && vs[in_translation(vs, tr)[k]].translation@ == tr,
    decreases vs.len(),
{
    if vs.len() > 0 {
        lemma_in_translation_members(vs.drop_last(), tr);
        let p = in_translation(vs.drop_last(), tr);
        assert forall|k: int| 0 <= k < p.len() implies vs[p[k]] == vs.drop_last()[p[k]] by {}
    }
}

impl AppState {
    /// The verse at row `row` of the verse table, which lists the verses of the
    /// selected translation: its position in `verses`.
    pub fn filtered_index(&self, row: usize) -> (r: Option<usize>)
        ensures
            ({
                let f = in_translation(self.verses@, self.selected_translation@);
                if row < f.len() {
                    r matches Some(k) && k as int == f[row as int]
                } else {
                    r is None
                }
            }),
    {
        let ghost vs = self.verses@;
        let ghost tr = self.selected_translation@;
        let mut count: usize = 0;
        let mut i: usize = 0;
        while i < self.verses.len()
            invariant
                i <= vs.len(),
                vs == self.verses@,
                tr == self.selected_translation@,
                count == in_translation(vs.take(i as int), tr).len(),
                count <= row,
            decreases vs.len() - i,
        {
            assert(vs.take(i + 1).drop_last() =~= vs.take(i as int));
            if self.verses[i].translation == self.selected_translation {
                if count == row {
                    proof {
                        assert(vs.take(i + 1).last() == vs[i as int]);
                        assert(in_translation(vs.take(i + 1), tr) == in_translation(
                            vs.take(i as int),
                            tr,
                        ).push(i as int));
                        lemma_in_translation_prefix(vs, tr, i + 1, vs.len() as int);
                        assert(vs.take(vs.len() as int) =~= vs);
                        assert(in_translation(vs.take(i + 1), tr)[count as int] == i);
                        assert(in_translation(vs, tr)[row as int] == i);
                    }
                    return Some(i);
                }
                count = count + 1;
            }
            i = i + 1;
        }
        assert(vs.take(vs.len() as int) =~= vs);
        None
    }

    /// Selecting row `row` of the verse table: the verse there becomes the selection
    /// and the preview; its header and text are returned.  A row past the table
    /// changes nothing.
    pub fn select_verse_row(&mut self, row: usize) -> (r: Option<(String, String)>)
        ensures
            ({
                let f = in_translation(old(self).verses@, old(self).selected_translation@);
                if row < f.len() {
                    let v = old(self).verses@[f[row as int]];
                    &&& r matches Some((h, b)) && h@ == verse_header(v) && b@ == v.text@
                    &&& final(self).selected_verse_index matches Some(k) && k as int == f[row as int]
                    &&& final(self).current_selection_type == 0
                    &&& final(self).preview_header@ == verse_header(v)
                    &&& final(self).preview_body@ == v.text@
                    &&& final(self).selected_song_index == old(self).selected_song_index
                    &&& final(self).selected_stanza_index == old(self).selected_stanza_index
                } else {
                    r is None && *final(self) == *old(self)
                }
            }),
            same_search(*old(self), *final(self)),
            same_live(*old(self), *final(self)),
            same_screen(*old(self), *final(self)),
            same_theme(*old(self), *final(self)),
            same_monitor(*old(self), *final(self)),
    {
        proof {
            lemma_in_translation_members(self.verses@, self.selected_translation@);
        }
        match self.filtered_index(row) {
            Some(idx) => {
                let (h, b) = verse_slide(&self.verses[idx]);
                self.selected_verse_index = Some(idx);
                self.current_selection_type = 0;
                self.preview_header = h.clone();
                self.preview_body = b.clone();
                Some((h, b))
            },
            None => None,
        }
    }

    /// Activating row `row` of the verse table: where `row` is below the number of
    /// verses and the table has that row, its verse alone goes live and the screen
    /// modes are reset; otherwise nothing changes.
    pub fn activate_verse_row(&mut self, row: usize)
        ensures
            ({
                let f = in_translation(old(self).verses@, old(self).selected_translation@);
                if row < old(self).verses@.len() && row < f.len() {
                    &&& is_live_verse(*final(self), old(self).verses@[f[row as int]])
                    &&& screen_reset(*final(self))
                    &&& final(self).go_live_active == old(self).go_live_active
                } else {
                    *final(self) == *old(self)
                }
            }),
            same_search(*old(self), *final(self)),
            same_selection(*old(self), *final(self)),
            same_preview(*old(self), *final(self)),
            same_theme(*old(self), *final(self)),
            same_monitor(*old(self), *final(self)),
    {
        if row < self.verses.len() {
            if let Some(idx) = self.filtered_index(row) {
                proof {
                    lemma_in_translation_members(self.verses@, self.selected_translation@);
                }
                self.show_verse_live(idx);
                self.blackout = false;
                self.clearout = false;
                self.logo_mode = false;
            }
        }
    }

    /// The verse at `idx` alone goes live.
    fn show_verse_live(&mut self, idx: usize)
        requires
            idx < old(self).verses@.len(),
        ensures
            is_live_verse(*final(self), old(self).verses@[idx as int]),
            same_search(*old(self), *final(self)),
            same_selection(*old(self), *final(self)),
            same_preview(*old(self), *final(self)),
            same_screen(*old(self), *final(self)),
            same_theme(*old(self), *final(self)),
            same_monitor(*old(self), *final(self)),
    {
        let (h, b) = verse_slide(&self.verses[idx]);
        let title = live_title(h.as_str());
        let mut slides: Vec<(String, String)> = Vec::new();
        slides.push((h, b));
        self.live_slides = slides;
        self.live_title = title;
        self.live_active_index = Some(0);
    }

    /// The song's stanzas go live, stanza `active` active.
    fn show_song_live(&mut self, title: &str, lyrics: &Vec<String>, active: usize)
        ensures
            is_song_slides(final(self).live_slides@, title@, lyrics@),
            final(self).live_title@ == live_title_of(title@),
            final(self).live_active_index == Some(active),
            same_search(*old(self), *final(self)),
            same_selection(*old(self), *final(self)),
            same_preview(*old(self), *final(self)),
            same_screen(*old(self), *final(self)),
            same_theme(*old(self), *final(self)),
            same_monitor(*old(self), *final(self)),
    {
        self.live_slides = song_slides(title, lyrics);
        self.live_title = live_title(title);
        self.live_active_index = Some(active);
    }
}

} // verus!

verus! {

/// The standby slide: what the live output shows before anything went live.
pub open spec fn standby_slide() -> (Seq<char>, Seq<char>) {
    ("EasyWorship"@, "[Standby - Projection Off]"@)
}

/// The slide the live output shows: the active slide; where there is none, the
/// standby slide when nothing is live and an empty one otherwise.
pub open spec fn spec_active_live_slide(s: AppState) -> (Seq<char>, Seq<char>) {
    match s.live_active_index {
        Some(i) => if i < s.live_slides@.len() {
            (s.live_slides@[i as int].0@, s.live_slides@[i as int].1@)
        } else {
            (seq![], seq![])
        },
        None => if s.live_slides@.len() == 0 {
            standby_slide()
        } else {
            (seq![], seq![])
        },
    }
}

/// The background value of the selected theme: the custom background's path for
/// the custom theme (empty where none is set), otherwise the theme's name.
pub open spec fn spec_theme_value(s: AppState) -> Seq<char> {
    if s.selected_theme@ == "custom"@ {
        match s.custom_background_path {
            Some(p) => p@,
            None => seq![],
        }
    } else {
        s.selected_theme@
    }
}

/// Recording slide `(h, b)` as the live monitor's slide: where it differs from the
/// current one, the current one becomes the previous one (the one to fade out) and
/// `changed` holds; otherwise nothing changes.
pub open spec fn is_live_record(
    a: AppState,
    h: Seq<char>,
    b: Seq<char>,
    changed: bool,
    n: AppState,
) -> bool {
    &&& changed == (a.live_current_header@ != h || a.live_current_body@ != b)
    &&& if changed {
        &&& n.live_prev_header == a.live_current_header
        &&& n.live_prev_body == a.live_current_body
        &&& n.live_current_header@ == h
        &&& n.live_current_body@ == b
    } else {
        same_monitor(a, n)
    }
    &&& same_search(a, n) && same_selection(a, n) && same_preview(a, n)
    &&& same_live(a, n) && same_screen(a, n) && same_theme(a, n)
}

/// Blackout switched, all else kept.
pub open spec fn is_blackout_toggle(a: AppState, n: AppState) -> bool {
    &&& n.blackout == !a.blackout
    &&& n.clearout == a.clearout && n.logo_mode == a.logo_mode && n.go_live_active
        == a.go_live_active
    &&& same_search(a, n) && same_selection(a, n) && same_preview(a, n)
    &&& same_live(a, n) && same_theme(a, n) && same_monitor(a, n)
}

/// Clear switched, all else kept.
pub open spec fn is_clearout_toggle(a: AppState, n: AppState) -> bool {
    &&& n.clearout == !a.clearout
    &&& n.blackout == a.blackout && n.logo_mode == a.logo_mode && n.go_live_active
        == a.go_live_active
    &&& same_search(a, n) && same_selection(a, n) && same_preview(a, n)
    &&& same_live(a, n) && same_theme(a, n) && same_monitor(a, n)
}

/// Logo switched, all else kept.
pub open spec fn is_logo_toggle(a: AppState, n: AppState) -> bool {
    &&& n.logo_mode == !a.logo_mode
    &&& n.blackout == a.blackout && n.clearout == a.clearout && n.go_live_active
        == a.go_live_active
    &&& same_search(a, n) && same_selection(a, n) && same_preview(a, n)
    &&& same_live(a, n) && same_theme(a, n) && same_monitor(a, n)
}

/// Builds a `String` from a literal.
fn lit(s: &str) -> (r: String)
    ensures
        r@ == s@,
{
    string_of(&chars_of(s))
}

impl AppState {
    /// The state at start-up: `verses` listed, their first selected, the KJV chosen,
    /// the Genesis 1:1 preview, nothing live, the classic-red theme.
    pub fn new(
        verses: Vec<Verse>,
        custom_themes: Vec<(String, String)>,
        default_song_bg_type: String,
        default_song_bg_val: Option<String>,
    ) -> (r: AppState)
        ensures
            r.verses == verses,
            r.selected_translation@ == "KJV"@,
            r.selected_verse_index == Some(0usize),
            r.selected_song_index is None,
            r.selected_stanza_index is None,
            r.current_selection_type == 0,
            r.live_title@ == "Live - Standby"@,
            r.live_slides@.len() == 0,
            r.live_active_index is None,
            r.search_parsed_verse == Some(1i32),
            !r.search_by_keyword,
            r.selected_theme@ == "classic-red"@,
            !r.blackout && !r.clearout && !r.logo_mode && !r.go_live_active,
            r.logo_image_path is None,
            r.custom_themes == custom_themes,
            r.custom_background_path is None,
            r.preview_header@ == "Genesis 1:1 (KJV)"@,
            r.preview_body@ == "In the beginning God created the heaven and the earth."@,
            r.live_current_header@ == "EasyWorship"@,
            r.live_current_body@ == "[Standby - Projection Off]"@,
            r.live_prev_header@.len() == 0,
            r.live_prev_body@.len() == 0,
            r.default_song_bg_type == default_song_bg_type,
            r.default_song_bg_val == default_song_bg_val,
    {
        AppState {
            verses,
            selected_translation: lit("KJV"),
            selected_verse_index: Some(0),
            selected_song_index: None,
            selected_stanza_index: None,
            current_selection_type: 0,
            live_title: lit("Live - Standby"),
            live_slides: Vec::new(),
            live_active_index: None,
            search_parsed_verse: Some(1),
            search_by_keyword: false,
            selected_theme: lit("classic-red"),
            blackout: false,
            clearout: false,
            logo_mode: false,
            go_live_active: false,
            logo_image_path: None,
            custom_themes,
            custom_background_path: None,
            preview_header: lit("Genesis 1:1 (KJV)"),
            preview_body: lit("In the beginning God created the heaven and the earth."),
            live_current_header: lit("EasyWorship"),
            live_current_body: lit("[Standby - Projection Off]"),
            live_prev_header: String::new(),
            live_prev_body: String::new(),
            default_song_bg_type,
            default_song_bg_val,
        }
    }

    /// The slide the live output shows (`spec_active_live_slide`).
    pub fn active_live_slide(&self) -> (r: (String, String))
        ensures
            (r.0@, r.1@) == spec_active_live_slide(*self),
    {
        match self.live_active_index {
            Some(i) => {
                if i < self.live_slides.len() {
                    (self.live_slides[i].0.clone(), self.live_slides[i].1.clone())
                } else {
                    (String::new(), String::new())
                }
            },
            None => {
                if self.live_slides.len() == 0 {
                    (lit("EasyWorship"), lit("[Standby - Projection Off]"))
                } else {
                    (String::new(), String::new())
                }
            },
        }
    }

    /// The background value of the selected theme (`spec_theme_value`).
    pub fn theme_value(&self) -> (r: String)
        ensures
            r@ == spec_theme_value(*self),
    {
        if self.selected_theme == lit("custom") {
            match &self.custom_background_path {
                Some(p) => p.clone(),
                None => String::new(),
            }
        } else {
            self.selected_theme.clone()
        }
    }

    /// Records `(header, body)` as the live monitor's slide; returns whether it
    /// differs from the slide shown so far, in which case that one is kept to fade
    /// out.
    pub fn record_live_output(&mut self, header: &str, body: &str) -> (changed: bool)
        ensures
            is_live_record(*old(self), header@, body@, changed, *final(self)),
    {
        let h = lit(header);
        let b = lit(body);
        let changed = !(self.live_current_header == h) || !(self.live_current_body == b);
        if changed {
            std::mem::swap(&mut self.live_prev_header, &mut self.live_current_header);
            std::mem::swap(&mut self.live_prev_body, &mut self.live_current_body);
            self.live_current_header = h;
            self.live_current_body = b;
        }
        changed
    }

    /// Switches blackout.
    pub fn toggle_blackout(&mut self) -> (on: bool)
        ensures
            is_blackout_toggle(*old(self), *final(self)),
            on == final(self).blackout,
    {
        self.blackout = !self.blackout;
        self.blackout
    }

    /// Switches clear (the body hidden, the header kept).
    pub fn toggle_clearout(&mut self) -> (on: bool)
        ensures
            is_clearout_toggle(*old(self), *final(self)),
            on == final(self).clearout,
    {
        self.clearout = !self.clearout;
        self.clearout
    }

    /// Switches the logo screen.
    pub fn toggle_logo(&mut self) -> (on: bool)
        ensures
            is_logo_toggle(*old(self), *final(self)),
            on == final(self).logo_mode,
    {
        self.logo_mode = !self.logo_mode;
        self.logo_mode
    }
}

/// Switching blackout twice gives back the state: the button undoes itself.
pub proof fn law_blackout_toggle_undoes_itself(a: AppState, b: AppState, c: AppState)
    requires
        is_blackout_toggle(a, b),
        is_blackout_toggle(b, c),
    ensures
        c == a,
{
}

/// Switching clear twice gives back the state.
pub proof fn law_clearout_toggle_undoes_itself(a: AppState, b: AppState, c: AppState)
    requires
        is_clearout_toggle(a, b),
        is_clearout_toggle(b, c),
    ensures
        c == a,
{
}

/// Switching the logo screen twice gives back the state.
pub proof fn law_logo_toggle_undoes_itself(a: AppState, b: AppState, c: AppState)
    requires
        is_logo_toggle(a, b),
        is_logo_toggle(b, c),
    ensures
        c == a,
{
}

/// Recording the same live slide twice: the second time nothing changes and no
/// transition starts.
pub proof fn law_live_record_idempotent(
    a: AppState,
    h: Seq<char>,
    bd: Seq<char>,
    c1: bool,
    b: AppState,
    c2: bool,
    c: AppState,
)
    requires
        is_live_record(a, h, bd, c1, b),
        is_live_record(b, h, bd, c2, c),
    ensures
        !c2,
        c == b,
{
}

} // verus!

verus! {

/// The live state after `go_live`: the selected verse or song goes live.
///
/// For Scripture: the selected verse (when it is in the list), or, with none
/// selected, the first verse of the selected translation.  For a song: all its
/// stanzas, the selected one (or the first) active.
pub open spec fn is_go_live(a: AppState, song: Option<(Seq<char>, Seq<String>)>, n: AppState) -> bool {
    &&& if a.current_selection_type == 0 {
        match a.selected_verse_index {
            Some(i) => if i < a.verses@.len() {
                is_live_verse(n, a.verses@[i as int])
            } else {
                same_live(a, n)
            },
            None => {
                let f = in_translation(a.verses@, a.selected_translation@);
                if f.len() > 0 {
                    is_live_verse(n, a.verses@[f[0]])
                } else {
                    same_live(a, n)
                }
            },
        }
    } else if a.selected_song_index is Some {
        &&& song matches Some((title, lyrics))
        &&& is_song_slides(n.live_slides@, title, lyrics)
        &&& n.live_title@ == live_title_of(title)
        &&& n.live_active_index == Some(
            match a.selected_stanza_index {
                Some(k) => k,
                None => 0usize,
            },
        )
    } else {
        same_live(a, n)
    }
    &&& screen_reset(n) && n.go_live_active == a.go_live_active
    &&& same_search(a, n) && same_selection(a, n) && same_preview(a, n)
    &&& same_theme(a, n) && same_monitor(a, n)
}

/// The song's view: its title and stanza lyrics.
pub open spec fn song_view(song: Option<(&str, &Vec<String>)>) -> Option<(Seq<char>, Seq<String>)> {
    match song {
        Some((t, l)) => Some((t@, l@)),
        None => None,
    }
}

/// The song has a stanza `row`.
pub open spec fn has_stanza(song: Option<(&str, &Vec<String>)>, row: usize) -> bool {
    match song {
        Some((_, l)) => row < l@.len(),
        None => false,
    }
}

/// The last row of the verse table whose reference names verse `t`.
pub open spec fn last_row_with_verse(vs: Seq<Verse>, f: Seq<int>, t: i32) -> Option<int>
    decreases f.len(),
{
    if f.len() == 0 {
        None
    } else if spec_reference_verse_number(vs[f.last()].reference@) == Some(t) {
        Some(f.len() - 1)
    } else {
        last_row_with_verse(vs, f.drop_last(), t)
    }
}

/// The row of the verse table that shows `vs[idx]`, where it is listed.
pub open spec fn row_of(vs: Seq<Verse>, tr: Seq<char>, idx: int) -> Option<int> {
    if 0 <= idx < vs.len() && vs[idx].translation@ == tr {
        Some(in_translation(vs.take(idx), tr).len() as int)
    } else {
        None
    }
}

/// The row the verse table selects after it is filled: the last one of the
/// searched verse number, where a search named one; else the selected verse's row.
pub open spec fn spec_target_verse_row(s: AppState) -> Option<int> {
    let f = in_translation(s.verses@, s.selected_translation@);
    match s.search_parsed_verse {
        Some(t) => last_row_with_verse(s.verses@, f, t),
        None => match s.selected_verse_index {
            Some(idx) => row_of(s.verses@, s.selected_translation@, idx as int),
            None => None,
        },
    }
}

/// `(name, path)` themes holding one with path `p`.
pub open spec fn has_theme_path(ts: Seq<(String, String)>, p: Seq<char>) -> bool {
    exists|i: int| 0 <= i < ts.len() && (#[trigger] ts[i]).1@ == p
}

/// No two themes share a path.
pub open spec fn theme_paths_unique(ts: Seq<(String, String)>) -> bool {
    forall|i: int, j: int|
        0 <= i < ts.len() && 0 <= j < ts.len() && i != j ==> (#[trigger] ts[i]).1@ != (
        #[trigger] ts[j]).1@
}

/// The themes without those of path `p`, in order.
pub open spec fn without_theme_path(ts: Seq<(String, String)>, p: Seq<char>) -> Seq<(String, String)>
    decreases ts.len(),
{
    if ts.len() == 0 {
        seq![]
    } else if ts.last().1@ == p {
        without_theme_path(ts.drop_last(), p)
    } else {
        without_theme_path(ts.drop_last(), p).push(ts.last())
    }
}

/// Adding theme `(name, path)`: appended where no theme has that path, otherwise
/// the list is kept.
pub open spec fn is_theme_add(
    a: Seq<(String, String)>,
    name: Seq<char>,
    path: Seq<char>,
    added: bool,
    n: Seq<(String, String)>,
) -> bool {
    &&& added == !has_theme_path(a, path)
    &&& if added {
        n.len() == a.len() + 1 && n.take(a.len() as int) == a && n.last().0@ == name
            && n.last().1@ == path
    } else {
        n == a
    }
}

impl AppState {
    /// Goes live with the selection (`is_go_live`), and resets the screen modes.
    /// `song` is the selected song's title and stanza lyrics.
    pub fn go_live(&mut self, song: Option<(&str, &Vec<String>)>)
        requires
            old(self).current_selection_type != 0 && old(self).selected_song_index is Some
                ==> song is Some,
        ensures
            is_go_live(*old(self), song_view(song), *final(self)),
    {
        if self.current_selection_type == 0 {
            match self.selected_verse_index {
                Some(i) => {
                    if i < self.verses.len() {
                        self.show_verse_live(i);
                    }
                },
                None => {
                    if let Some(idx) = self.filtered_index(0) {
                        proof {
                            lemma_in_translation_members(self.verses@, self.selected_translation@);
                        }
                        self.show_verse_live(idx);
                    }
                },
            }
        } else if self.selected_song_index.is_some() {
            if let Some((title, lyrics)) = song {
                let k = match self.selected_stanza_index {
                    Some(k) => k,
                    None => 0,
                };
                self.show_song_live(title, lyrics, k);
            }
        }
        self.blackout = false;
        self.clearout = false;
        self.logo_mode = false;
    }

    /// Activating row `row` of the stanza table: the selected song's stanzas go live,
    /// that one active, and the screen modes are reset.  Without a selected song
    /// nothing changes.
    pub fn activate_stanza_row(&mut self, row: usize, song: Option<(&str, &Vec<String>)>)
        requires
            old(self).selected_song_index is Some ==> song is Some,
        ensures
            if old(self).selected_song_index is Some {
                &&& song matches Some((title, lyrics))
                &&& is_song_slides(final(self).live_slides@, title@, lyrics@)
                &&& final(self).live_title@ == live_title_of(title@)
                &&& final(self).live_active_index == Some(row)
                &&& screen_reset(*final(self))
                &&& final(self).go_live_active == old(self).go_live_active
            } else {
                *final(self) == *old(self)
            },
            same_search(*old(self), *final(self)),
            same_selection(*old(self), *final(self)),
            same_preview(*old(self), *final(self)),
            same_theme(*old(self), *final(self)),
            same_monitor(*old(self), *final(self)),
    {
        if self.selected_song_index.is_some() {
            if let Some((title, lyrics)) = song {
                self.show_song_live(title, lyrics, row);
                self.blackout = false;
                self.clearout = false;
                self.logo_mode = false;
            }
        }
    }

    /// Selecting row `row` of the live slide list makes it the active slide.
    pub fn select_live_row(&mut self, row: usize)
        ensures
            final(self).live_active_index == Some(row),
            final(self).live_title == old(self).live_title,
            final(self).live_slides == old(self).live_slides,
            same_search(*old(self), *final(self)),
            same_selection(*old(self), *final(self)),
            same_preview(*old(self), *final(self)),
            same_screen(*old(self), *final(self)),
            same_theme(*old(self), *final(self)),
            same_monitor(*old(self), *final(self)),
    {
        self.live_active_index = Some(row);
    }

    /// Takes the verses a search found and the verse number it named; no verse is
    /// selected any more.
    pub fn apply_search(&mut self, verses: Vec<Verse>, parsed_verse: Option<i32>)
        ensures
            final(self).verses == verses,
            final(self).selected_verse_index is None,
            final(self).search_parsed_verse == parsed_verse,
            final(self).selected_translation == old(self).selected_translation,
            final(self).search_by_keyword == old(self).search_by_keyword,
            final(self).selected_song_index == old(self).selected_song_index,
            final(self).selected_stanza_index == old(self).selected_stanza_index,
            final(self).current_selection_type == old(self).current_selection_type,
            same_preview(*old(self), *final(self)),
            same_live(*old(self), *final(self)),
            same_screen(*old(self), *final(self)),
            same_theme(*old(self), *final(self)),
            same_monitor(*old(self), *final(self)),
    {
        self.verses = verses;
        self.selected_verse_index = None;
        self.search_parsed_verse = parsed_verse;
    }

    /// Replaces the listed verses (a new query in another translation).
    pub fn replace_verses(&mut self, verses: Vec<Verse>)
        ensures
            final(self).verses == verses,
            final(self).selected_translation == old(self).selected_translation,
            final(self).search_parsed_verse == old(self).search_parsed_verse,
            final(self).search_by_keyword == old(self).search_by_keyword,
            same_selection(*old(self), *final(self)),
            same_preview(*old(self), *final(self)),
            same_live(*old(self), *final(self)),
            same_screen(*old(self), *final(self)),
            same_theme(*old(self), *final(self)),
            same_monitor(*old(self), *final(self)),
    {
        self.verses = verses;
    }

    /// Switches between keyword and reference search; returns the new mode.
    pub fn toggle_keyword_search(&mut self) -> (by_keyword: bool)
        ensures
            final(self).search_by_keyword == !old(self).search_by_keyword,
            by_keyword == final(self).search_by_keyword,
            final(self).verses == old(self).verses,
            final(self).selected_translation == old(self).selected_translation,
            final(self).search_parsed_verse == old(self).search_parsed_verse,
            same_selection(*old(self), *final(self)),
            same_preview(*old(self), *final(self)),
            same_live(*old(self), *final(self)),
            same_screen(*old(self), *final(self)),
            same_theme(*old(self), *final(self)),
            same_monitor(*old(self), *final(self)),
    {
        self.search_by_keyword = !self.search_by_keyword;
        self.search_by_keyword
    }

    /// Selecting row `row` of the translation list: HCSB, KJV or RVA; any other
    /// row is refused and changes nothing.
    pub fn select_translation(&mut self, row: usize) -> (ok: bool)
        ensures
            ok == (row < 3),
            row == 0 ==> final(self).selected_translation@ == "HCSB"@,
            row == 1 ==> final(self).selected_translation@ == "KJV"@,
            row == 2 ==> final(self).selected_translation@ == "RVA"@,
            row >= 3 ==> *final(self) == *old(self),
            final(self).verses == old(self).verses,
            final(self).search_parsed_verse == old(self).search_parsed_verse,
            final(self).search_by_keyword == old(self).search_by_keyword,
            same_selection(*old(self), *final(self)),
            same_preview(*old(self), *final(self)),
            same_live(*old(self), *final(self)),
            same_screen(*old(self), *final(self)),
            same_theme(*old(self), *final(self)),
            same_monitor(*old(self), *final(self)),
    {
        if row == 0 {
            self.selected_translation = lit("HCSB");
        } else if row == 1 {
            self.selected_translation = lit("KJV");
        } else if row == 2 {
            self.selected_translation = lit("RVA");
        } else {
            return false;
        }
        true
    }

    /// The row the verse table selects after it is filled (`spec_target_verse_row`);
    /// `None` leaves the choice to the table (its first row).
    pub fn target_verse_row(&self) -> (r: Option<usize>)
        ensures
            match spec_target_verse_row(*self) {
                Some(k) => r matches Some(x) && x as int == k,
                None => r is None,
            },
    {
        let ghost vs = self.verses@;
        let ghost tr = self.selected_translation@;
        let mut target: Option<usize> = None;
        let mut count: usize = 0;
        let mut i: usize = 0;
        while i < self.verses.len()
            invariant
                i <= vs.len(),
                vs == self.verses@,
                tr == self.selected_translation@,
                count == in_translation(vs.take(i as int), tr).len(),
                count <= i,
                match self.search_parsed_verse {
                    Some(t) => match last_row_with_verse(vs, in_translation(vs.take(i as int), tr), t) {
                        Some(k) => target matches Some(x) && x as int == k,
                        None => target is None,
                    },
                    None => match self.selected_verse_index {
                        Some(idx) => if idx < i {
                            match row_of(vs, tr, idx as int) {
                                Some(k) => target matches Some(x) && x as int == k,
                                None => target is None,
                            }
                        } else {
                            target is None
                        },
                        None => target is None,
                    },
                },
            decreases vs.len() - i,
        {
            let ghost f = in_translation(vs.take(i as int), tr);
            assert(vs.take(i + 1).drop_last() =~= vs.take(i as int));
            assert(vs.take(i + 1).last() == vs[i as int]);
            proof {
                lemma_in_translation_members(vs.take(i as int), tr);
            }
            if self.verses[i].translation == self.selected_translation {
                assert(in_translation(vs.take(i + 1), tr) == f.push(i as int));
                assert(in_translation(vs.take(i + 1), tr).drop_last() =~= f);
                match self.search_parsed_verse {
                    Some(t) => {
                        if reference_verse_number(self.verses[i].reference.as_str()) == Some(t) {
                            target = Some(count);
                        }
                    },
                    None => {
                        if self.selected_verse_index == Some(i) {
                            target = Some(count);
                        }
                    },
                }
                count = count + 1;
            } else {
                assert(in_translation(vs.take(i + 1), tr) == f);
            }
            i = i + 1;
        }
        assert(vs.take(vs.len() as int) =~= vs);
        target
    }

    /// Showing a song in the stanza table: its first stanza becomes the selection and
    /// the preview.
    pub fn show_song(&mut self, index: usize, title: &str, lyrics: &Vec<String>)
        requires
            lyrics@.len() > 0,
        ensures
            final(self).selected_song_index == Some(index),
            final(self).selected_stanza_index == Some(0usize),
            final(self).current_selection_type == 1,
            final(self).preview_header@ == stanza_header(title@, 0),
            final(self).preview_body@ == lyrics@[0]@,
            final(self).selected_verse_index == old(self).selected_verse_index,
            same_search(*old(self), *final(self)),
            same_live(*old(self), *final(self)),
            same_screen(*old(self), *final(self)),
            same_theme(*old(self), *final(self)),
            same_monitor(*old(self), *final(self)),
    {
        self.selected_song_index = Some(index);
        self.selected_stanza_index = Some(0);
        self.current_selection_type = 1;
        self.preview_header = stanza_slide_header(title, 0);
        self.preview_body = lyrics[0].clone();
    }

    /// Selecting row `row` of the stanza table: it becomes the selected stanza, and,
    /// where the selected song has such a stanza, the preview; returns whether the
    /// preview changed.
    pub fn select_stanza_row(&mut self, row: usize, song: Option<(&str, &Vec<String>)>) -> (shown: bool)
        requires
            old(self).selected_song_index is Some ==> song is Some,
        ensures
            final(self).selected_stanza_index == Some(row),
            final(self).current_selection_type == 1,
            shown == (old(self).selected_song_index is Some && has_stanza(song, row)),
            shown ==> (song matches Some((t, l)) && final(self).preview_header@ == stanza_header(
                t@,
                row as int,
            ) && final(self).preview_body@ == l@[row as int]@),
            !shown ==> same_preview(*old(self), *final(self)),
            final(self).selected_verse_index == old(self).selected_verse_index,
            final(self).selected_song_index == old(self).selected_song_index,
            same_search(*old(self), *final(self)),
            same_live(*old(self), *final(self)),
            same_screen(*old(self), *final(self)),
            same_theme(*old(self), *final(self)),
            same_monitor(*old(self), *final(self)),
    {
        self.selected_stanza_index = Some(row);
        self.current_selection_type = 1;
        if self.selected_song_index.is_some() {
            if let Some((title, lyrics)) = song {
                if row < lyrics.len() {
                    self.preview_header = stanza_slide_header(title, row);
                    self.preview_body = lyrics[row].clone();
                    return true;
                }
            }
        }
        false
    }

    /// Chooses one of the built-in themes by name.
    pub fn choose_theme(&mut self, name: &str)
        ensures
            final(self).selected_theme@ == name@,
            final(self).custom_background_path == old(self).custom_background_path,
            final(self).custom_themes == old(self).custom_themes,
            final(self).logo_image_path == old(self).logo_image_path,
            final(self).default_song_bg_type == old(self).default_song_bg_type,
            final(self).default_song_bg_val == old(self).default_song_bg_val,
            same_search(*old(self), *final(self)),
            same_selection(*old(self), *final(self)),
            same_preview(*old(self), *final(self)),
            same_live(*old(self), *final(self)),
            same_screen(*old(self), *final(self)),
            same_monitor(*old(self), *final(self)),
    {
        self.selected_theme = lit(name);
    }

    /// Chooses a custom background image as the theme.
    pub fn choose_custom_theme(&mut self, path: &str)
        ensures
            final(self).selected_theme@ == "custom"@,
            final(self).custom_background_path matches Some(p) && p@ == path@,
            final(self).custom_themes == old(self).custom_themes,
            final(self).logo_image_path == old(self).logo_image_path,
            final(self).default_song_bg_type == old(self).default_song_bg_type,
            final(self).default_song_bg_val == old(self).default_song_bg_val,
            same_search(*old(self), *final(self)),
            same_selection(*old(self), *final(self)),
            same_preview(*old(self), *final(self)),
            same_live(*old(self), *final(self)),
            same_screen(*old(self), *final(self)),
            same_monitor(*old(self), *final(self)),
    {
        self.selected_theme = lit("custom");
        self.custom_background_path = Some(lit(path));
    }

    /// Adds a custom theme unless one with that path is there (`is_theme_add`).
    pub fn add_custom_theme(&mut self, name: &str, path: &str) -> (added: bool)
        ensures
            is_theme_add(old(self).custom_themes@, name@, path@, added, final(self).custom_themes@),
            final(self).selected_theme == old(self).selected_theme,
            final(self).custom_background_path == old(self).custom_background_path,
            final(self).logo_image_path == old(self).logo_image_path,
            final(self).default_song_bg_type == old(self).default_song_bg_type,
            final(self).default_song_bg_val == old(self).default_song_bg_val,
            same_search(*old(self), *final(self)),
            same_selection(*old(self), *final(self)),
            same_preview(*old(self), *final(self)),
            same_live(*old(self), *final(self)),
            same_screen(*old(self), *final(self)),
            same_monitor(*old(self), *final(self)),
    {
        let p = lit(path);
        let mut i: usize = 0;
        while i < self.custom_themes.len()
            invariant
                i <= self.custom_themes@.len(),
                self.custom_themes == old(self).custom_themes,
                p@ == path@,
                forall|j: int| 0 <= j < i ==> (#[trigger] self.custom_themes@[j]).1@ != path@,
            decreases self.custom_themes@.len() - i,
        {
            if self.custom_themes[i].1 == p {
                return false;
            }
            i = i + 1;
        }
        self.custom_themes.push((lit(name), p));
        assert(self.custom_themes@.take(old(self).custom_themes@.len() as int) =~= old(
            self,
        ).custom_themes@);
        true
    }

    /// Removes every custom theme of that path (`without_theme_path`).
    pub fn remove_custom_theme(&mut self, path: &str)
        ensures
            final(self).custom_themes@ == without_theme_path(old(self).custom_themes@, path@),
            final(self).selected_theme == old(self).selected_theme,
            final(self).custom_background_path == old(self).custom_background_path,
            final(self).logo_image_path == old(self).logo_image_path,
            final(self).default_song_bg_type == old(self).default_song_bg_type,
            final(self).default_song_bg_val == old(self).default_song_bg_val,
            same_search(*old(self), *final(self)),
            same_selection(*old(self), *final(self)),
            same_preview(*old(self), *final(self)),
            same_live(*old(self), *final(self)),
            same_screen(*old(self), *final(self)),
            same_monitor(*old(self), *final(self)),
    {
        let p = lit(path);
        let mut old_themes: Vec<(String, String)> = Vec::new();
        std::mem::swap(&mut old_themes, &mut self.custom_themes);
        let mut kept: Vec<(String, String)> = Vec::new();
        let mut i: usize = 0;
        while i < old_themes.len()
            invariant
                i <= old_themes@.len(),
                old_themes@ == old(self).custom_themes@,
                p@ == path@,
                kept@ == without_theme_path(old_themes@.take(i as int), path@),
            decreases old_themes@.len() - i,
        {
            assert(old_themes@.take(i + 1).drop_last() =~= old_themes@.take(i as int));
            if !(old_themes[i].1 == p) {
                kept.push((old_themes[i].0.clone(), old_themes[i].1.clone()));
            }
            i = i + 1;
        }
        assert(old_themes@.take(old_themes@.len() as int) =~= old_themes@);
        self.custom_themes = kept;
    }
}

} // verus!

verus! {

/// What the live panel's text view shows, `(reference, body)`: standby texts when
/// nothing is live; for the active slide, nothing under blackout, the standby
/// cross under the logo, the header alone when cleared, else header and body.
/// `None` where an active slide is missing: the view keeps what it showed.
pub open spec fn spec_monitor_text(s: AppState) -> Option<(Seq<char>, Seq<char>)> {
    if s.live_slides@.len() == 0 {
        Some(("LIVE OUTPUT MONITOR"@, "[Standby - Projection Off]"@))
    } else {
        match s.live_active_index {
            Some(i) => if i < s.live_slides@.len() {
                let (h, b) = s.live_slides@[i as int];
                if s.blackout {
                    Some((seq![], seq![]))
                } else if s.logo_mode {
                    Some(("EasyWorship"@, "\u{271d}\nStandby Screen"@))
                } else if s.clearout {
                    Some((h@, seq![]))
                } else {
                    Some((h@, b@))
                }
            } else {
                None
            },
            None => None,
        }
    }
}

/// The status line for a selected verse:
/// `Translation  |  Reference (Selected)  |  N references available`.
pub open spec fn spec_status_text(v: Verse, count: nat) -> Seq<char> {
    v.translation@ + "  |  "@ + v.reference@ + " (Selected)  |  "@ + decimal(count)
        + " references available"@
}

impl AppState {
    /// What the live panel's text view shows (`spec_monitor_text`).
    pub fn monitor_text(&self) -> (r: Option<(String, String)>)
        ensures
            match spec_monitor_text(*self) {
                Some((h, b)) => r matches Some((rh, rb)) && rh@ == h && rb@ == b,
                None => r is None,
            },
    {
        if self.live_slides.len() == 0 {
            return Some((lit("LIVE OUTPUT MONITOR"), lit("[Standby - Projection Off]")));
        }
        match self.live_active_index {
            Some(i) => {
                if i < self.live_slides.len() {
                    let h = &self.live_slides[i].0;
                    let b = &self.live_slides[i].1;
                    if self.blackout {
                        Some((String::new(), String::new()))
                    } else if self.logo_mode {
                        Some((lit("EasyWorship"), lit("\u{271d}\nStandby Screen")))
                    } else if self.clearout {
                        Some((h.clone(), String::new()))
                    } else {
                        Some((h.clone(), b.clone()))
                    }
                } else {
                    None
                }
            },
            None => None,
        }
    }
}

/// The status line for a selected verse (`spec_status_text`).
pub fn status_text(v: &Verse, count: usize) -> (r: String)
    ensures
        r@ == spec_status_text(*v, count as nat),
{
    let mut out = chars_of(v.translation.as_str());
    push_str(&mut out, "  |  ");
    push_str(&mut out, v.reference.as_str());
    push_str(&mut out, " (Selected)  |  ");
    push_decimal(&mut out, count as u64);
    push_str(&mut out, " references available");
    assert(out@ =~= spec_status_text(*v, count as nat));
    string_of(&out)
}

/// The first 80 characters of a slide body: its line in the live slide list.
pub fn slide_summary(body: &str) -> (r: String)
    ensures
        r@ == body@.take(if body@.len() < 80 { body@.len() as int } else { 80 }),
{
    let v = chars_of(body);
    let n = if v.len() < 80 {
        v.len()
    } else {
        80
    };
    assert(v@.take(n as int) =~= v@.subrange(0, n as int));
    crate::text::string_of_range(&v, 0, n)
}

/// Lyrics with each line break shown as ` / `.
pub open spec fn spec_one_line(s: Seq<char>) -> Seq<char>
    decreases s.len(),
{
    if s.len() == 0 {
        seq![]
    } else if s.last() == '\n' {
        spec_one_line(s.drop_last()) + seq![' ', '/', ' ']
    } else {
        spec_one_line(s.drop_last()).push(s.last())
    }
}

/// Lyrics on one line, each line break shown as ` / ` (the stanza table's text).
pub fn one_line(lyrics: &str) -> (r: String)
    ensures
        r@ == spec_one_line(lyrics@),
{
    let v = chars_of(lyrics);
    let mut out: Vec<char> = Vec::new();
    let mut i: usize = 0;
    while i < v.len()
        invariant
            i <= v@.len(),
            out@ == spec_one_line(v@.take(i as int)),
        decreases v@.len() - i,
    {
        assert(v@.take(i + 1).drop_last() =~= v@.take(i as int));
        if v[i] == '\n' {
            out.push(' ');
            out.push('/');
            out.push(' ');
            assert(out@ =~= spec_one_line(v@.take(i + 1)));
        } else {
            out.push(v[i]);
        }
        i = i + 1;
    }
    assert(v@.take(v@.len() as int) =~= v@);
    string_of(&out)
}

/// Adding a theme keeps the paths unique and leaves the path listed.
pub proof fn law_theme_add_keeps_paths_unique(
    a: Seq<(String, String)>,
    name: Seq<char>,
    path: Seq<char>,
    added: bool,
    n: Seq<(String, String)>,
)
    requires
        theme_paths_unique(a),
        is_theme_add(a, name, path, added, n),
    ensures
        theme_paths_unique(n),
        has_theme_path(n, path),
{
    if added {
        assert forall|i: int, j: int|
            0 <= i < n.len() && 0 <= j < n.len() && i != j implies (#[trigger] n[i]).1@ != (
            #[trigger] n[j]).1@ by {
            if i < a.len() {
                assert(n[i] == a[i]);
            }
            if j < a.len() {
                assert(n[j] == a[j]);
            }
            if i == a.len() {
                assert(!(0 <= j < a.len() && a[j].1@ == path));
            }
            if j == a.len() {
                assert(!(0 <= i < a.len() && a[i].1@ == path));
            }
        }
        assert(n[n.len() - 1].1@ == path);
    }
}

/// Adding a theme whose path is listed already changes nothing.
pub proof fn law_theme_add_twice(
    a: Seq<(String, String)>,
    name: Seq<char>,
    path: Seq<char>,
    added: bool,
    b: Seq<(String, String)>,
    name2: Seq<char>,
    added2: bool,
    c: Seq<(String, String)>,
)
    requires
        is_theme_add(a, name, path, added, b),
        is_theme_add(b, name2, path, added2, c),
    ensures
        !added2,
        c == b,
{
    if added {
        assert(b[b.len() - 1].1@ == path);
    }
}

/// Removing a path leaves no theme of that path and keeps every other one.
pub proof fn law_theme_remove(a: Seq<(String, String)>, path: Seq<char>, other: Seq<char>)
    requires
        other != path,
    ensures
        !has_theme_path(without_theme_path(a, path), path),
        has_theme_path(a, other) ==> has_theme_path(without_theme_path(a, path), other),
    decreases a.len(),
{
    if a.len() > 0 {
        law_theme_remove(a.drop_last(), path, other);
        let r = without_theme_path(a.drop_last(), path);
        if has_theme_path(a, other) {
            let i = choose|i: int| 0 <= i < a.len() && (#[trigger] a[i]).1@ == other;
            if i < a.len() - 1 {
                assert(a.drop_last()[i] == a[i]);
            }
        }
        if a.last().1@ != path {
            let n = r.push(a.last());
            if has_theme_path(n, path) {
                let k = choose|k: int| 0 <= k < n.len() && (#[trigger] n[k]).1@ == path;
                if k < r.len() {
                    assert(n[k] == r[k]);
                }
            }
            if has_theme_path(r, other) {
                let k = choose|k: int| 0 <= k < r.len() && (#[trigger] r[k]).1@ == other;
                assert(n[k] == r[k]);
            }
            if has_theme_path(a, other) && !has_theme_path(r, other) {
                assert(n[n.len() - 1].1@ == other);
            }
        }
    }
}

} // verus!

verus! {

/// The positions, as `usize`, of a sequence of positions.
pub open spec fn positions(v: Seq<usize>) -> Seq<int> {
    Seq::new(v.len(), |i: int| v[i] as int)
}

impl AppState {
    /// The rows of the verse table: the positions in `verses`, in order, of the
    /// verses of the selected translation.
    pub fn listed_indices(&self) -> (r: Vec<usize>)
        ensures
            positions(r@) == in_translation(self.verses@, self.selected_translation@),
    {
        let ghost vs = self.verses@;
        let ghost tr = self.selected_translation@;
        let mut r: Vec<usize> = Vec::new();
        let mut i: usize = 0;
        while i < self.verses.len()
            invariant
                i <= vs.len(),
                vs == self.verses@,
                tr == self.selected_translation@,
                positions(r@) == in_translation(vs.take(i as int), tr),
            decreases vs.len() - i,
        {
            assert(vs.take(i + 1).drop_last() =~= vs.take(i as int));
            assert(vs.take(i + 1).last() == vs[i as int]);
            if self.verses[i].translation == self.selected_translation {
                r.push(i);
                assert(positions(r@) =~= in_translation(vs.take(i as int), tr).push(i as int));
            }
            i = i + 1;
        }
        assert(vs.take(vs.len() as int) =~= vs);
        r
    }
}

/// What "Copy Verse" puts on the clipboard: `Reference - Text`.
pub fn verse_copy_text(v: &Verse) -> (r: String)
    ensures
        r@ == v.reference@ + " - "@ + v.text@,
{
    let mut out = chars_of(v.reference.as_str());
    push_str(&mut out, " - ");
    push_str(&mut out, v.text.as_str());
    string_of(&out)
}

/// The preview panel's title for a slide header: `Preview - Header`.
pub fn preview_title(header: &str) -> (r: String)
    ensures
        r@ == "Preview - "@ + header@,
{
    let mut out = chars_of("Preview - ");
    push_str(&mut out, header);
    string_of(&out)
}

/// The preview panel's title for stanza `i` (from 0) of a song:
/// `Preview - Title (Stanza N)`, counting from 1.
pub fn stanza_preview_title(title: &str, i: usize) -> (r: String)
    requires
        i < usize::MAX,
    ensures
        r@ == "Preview - "@ + title@ + " (Stanza "@ + decimal((i + 1) as nat) + ")"@,
{
    let mut out = chars_of("Preview - ");
    push_str(&mut out, title);
    push_str(&mut out, " (Stanza ");
    push_decimal(&mut out, (i + 1) as u64);
    push_str(&mut out, ")");
    string_of(&out)
}

} // verus!


verus! {

/// Among the first `j` verses none is of translation `tr`: none is listed.
pub proof fn lemma_in_translation_none(vs: Seq<Verse>, tr: Seq<char>, j: int)
    requires
        0 <= j <= vs.len(),
        forall|k: int| 0 <= k < j ==> (#[trigger] vs[k]).translation@ != tr,
    ensures
        in_translation(vs.take(j), tr).len() == 0,
    decreases j,
{
    if j > 0 {
        assert(vs.take(j).drop_last() =~= vs.take(j - 1));
        assert(vs.take(j).last() == vs[j - 1]);
        lemma_in_translation_none(vs, tr, j - 1);
    }
}

/// Going live with a Scripture verse selected sends exactly that verse: one slide,
/// headed `Reference (Translation)` and holding its text, active, under the title
/// `Live - Reference (Translation)`, with the screen modes cleared.
pub proof fn law_go_live_sends_selected_verse(
    a: AppState,
    song: Option<(Seq<char>, Seq<String>)>,
    n: AppState,
    i: usize,
)
    requires
        is_go_live(a, song, n),
        a.current_selection_type == 0,
        a.selected_verse_index == Some(i),
        i < a.verses@.len(),
    ensures
        n.live_slides@.len() == 1,
        n.live_slides@[0].0@ == a.verses@[i as int].reference@ + seq![' ', '(']
            + a.verses@[i as int].translation@ + seq![')'],
        n.live_slides@[0].1@ == a.verses@[i as int].text@,
        n.live_title@ == seq!['L', 'i', 'v', 'e', ' ', '-', ' '] + n.live_slides@[0].0@,
        n.live_active_index == Some(0usize),
        !n.blackout && !n.clearout && !n.logo_mode,
{
}

/// Going live with Scripture and no verse selected sends the first verse of the
/// selected translation, the `j`-th: one slide of it, active.
pub proof fn law_go_live_without_selection_sends_first_verse(
    a: AppState,
    song: Option<(Seq<char>, Seq<String>)>,
    n: AppState,
    j: int,
)
    requires
        is_go_live(a, song, n),
        a.current_selection_type == 0,
        a.selected_verse_index is None,
        0 <= j < a.verses@.len(),
        a.verses@[j].translation@ == a.selected_translation@,
        forall|k: int| 0 <= k < j ==> (#[trigger] a.verses@[k]).translation@ != a.selected_translation@,
    ensures
        n.live_slides@.len() == 1,
        n.live_slides@[0].0@ == a.verses@[j].reference@ + seq![' ', '('] + a.verses@[j].translation@
            + seq![')'],
        n.live_slides@[0].1@ == a.verses@[j].text@,
        n.live_active_index == Some(0usize),
{
    let vs = a.verses@;
    let tr = a.selected_translation@;
    lemma_in_translation_none(vs, tr, j);
    assert(vs.take(j + 1).drop_last() =~= vs.take(j));
    assert(vs.take(j + 1).last() == vs[j]);
    assert(in_translation(vs.take(j + 1), tr) =~= seq![j]);
    lemma_in_translation_prefix(vs, tr, j + 1, vs.len() as int);
    assert(vs.take(vs.len() as int) =~= vs);
    assert(in_translation(vs.take(j + 1), tr)[0] == j);
}

} // verus!
