use church_presenter::presenter::{
    one_line, preview_title, slide_summary, song_slides, stanza_preview_title, stanza_slide_header, status_text,
    verse_copy_text, verse_slide, AppState,
};
use church_presenter::scripture::Verse;

fn verse(tr: &str, reference: &str, text: &str) -> Verse {
    Verse { translation: tr.to_string(), reference: reference.to_string(), text: text.to_string() }
}

fn sample_state() -> AppState {
    let verses = vec![
        verse("KJV", "John 3:16", "For God so loved the world"),
        verse("HCSB", "John 3:16", "For God loved the world in this way"),
        verse("KJV", "John 3:17", "For God sent not his Son"),
    ];
    AppState::new(verses, vec![("Sunrise".to_string(), "/m/sunrise.png".to_string())], "theme".to_string(), Some("royal-blue".to_string()))
}

#[test]
fn start_up_state() {
    let s = sample_state();
    assert_eq!(s.selected_translation, "KJV");
    assert_eq!(s.selected_verse_index, Some(0));
    assert_eq!(s.live_title, "Live - Standby");
    assert_eq!(s.preview_header, "Genesis 1:1 (KJV)");
    assert_eq!(s.selected_theme, "classic-red");
    assert_eq!(s.active_live_slide(), ("EasyWorship".to_string(), "[Standby - Projection Off]".to_string()));
    assert_eq!(s.monitor_text(), Some(("LIVE OUTPUT MONITOR".to_string(), "[Standby - Projection Off]".to_string())));
}

#[test]
fn rows_follow_the_selected_translation() {
    let mut s = sample_state();
    assert_eq!(s.filtered_index(0), Some(0));
    assert_eq!(s.filtered_index(1), Some(2));
    assert_eq!(s.filtered_index(2), None);
    let shown = s.select_verse_row(1).unwrap();
    assert_eq!(shown, ("John 3:17 (KJV)".to_string(), "For God sent not his Son".to_string()));
    assert_eq!(s.selected_verse_index, Some(2));
    assert_eq!(s.preview_header, "John 3:17 (KJV)");
    assert!(s.select_verse_row(5).is_none());
    assert!(s.select_translation(0));
    assert_eq!(s.selected_translation, "HCSB");
    assert_eq!(s.filtered_index(0), Some(1));
    assert!(!s.select_translation(3));
    assert_eq!(s.selected_translation, "HCSB");
}

#[test]
fn activating_a_verse_puts_it_live_and_resets_the_screen() {
    let mut s = sample_state();
    s.toggle_blackout();
    s.toggle_logo();
    s.activate_verse_row(1);
    assert_eq!(s.live_slides, vec![("John 3:17 (KJV)".to_string(), "For God sent not his Son".to_string())]);
    assert_eq!(s.live_title, "Live - John 3:17 (KJV)");
    assert_eq!(s.live_active_index, Some(0));
    assert!(!s.blackout && !s.clearout && !s.logo_mode);
    s.activate_verse_row(7);
    assert_eq!(s.live_title, "Live - John 3:17 (KJV)");
}

#[test]
fn toggles_undo_themselves() {
    let mut s = sample_state();
    assert!(s.toggle_blackout());
    assert!(!s.toggle_blackout());
    assert!(s.toggle_clearout());
    assert!(!s.toggle_clearout());
    assert!(s.toggle_logo());
    assert!(!s.toggle_logo());
    assert!(!s.blackout && !s.clearout && !s.logo_mode);
}

#[test]
fn go_live_with_a_song() {
    let mut s = sample_state();
    let lyrics = vec!["Amazing grace\nhow sweet".to_string(), "Twas grace".to_string()];
    s.show_song(4, "Amazing Grace", &lyrics);
    assert_eq!(s.preview_header, "Amazing Grace - Stanza 1");
    assert_eq!(s.current_selection_type, 1);
    assert!(s.select_stanza_row(1, Some(("Amazing Grace", &lyrics))));
    assert_eq!(s.preview_body, "Twas grace");
    assert!(!s.select_stanza_row(9, Some(("Amazing Grace", &lyrics))));
    s.select_stanza_row(1, Some(("Amazing Grace", &lyrics)));
    s.go_live(Some(("Amazing Grace", &lyrics)));
    assert_eq!(s.live_slides.len(), 2);
    assert_eq!(s.live_slides[1].0, "Amazing Grace - Stanza 2");
    assert_eq!(s.live_active_index, Some(1));
    assert_eq!(s.live_title, "Live - Amazing Grace");
    assert_eq!(s.active_live_slide().1, "Twas grace");
    s.select_live_row(0);
    assert_eq!(s.active_live_slide().0, "Amazing Grace - Stanza 1");
    s.activate_stanza_row(1, Some(("Amazing Grace", &lyrics)));
    assert_eq!(s.live_active_index, Some(1));
}

#[test]
fn go_live_with_no_verse_selected_takes_the_first_of_the_translation() {
    let mut s = sample_state();
    s.select_translation(0);
    let vs = s.verses.clone();
    s.apply_search(vs, None);
    s.go_live(None);
    assert_eq!(s.live_title, "Live - John 3:16 (HCSB)");
}

#[test]
fn live_record_keeps_the_slide_to_fade() {
    let mut s = sample_state();
    assert!(s.record_live_output("John 3:16 (KJV)", "For God"));
    assert_eq!(s.live_prev_header, "EasyWorship");
    assert_eq!(s.live_current_body, "For God");
    assert!(!s.record_live_output("John 3:16 (KJV)", "For God"));
    assert_eq!(s.live_prev_header, "EasyWorship");
}

#[test]
fn monitor_text_follows_the_screen_modes() {
    let mut s = sample_state();
    s.activate_verse_row(0);
    assert_eq!(s.monitor_text(), Some(("John 3:16 (KJV)".to_string(), "For God so loved the world".to_string())));
    s.toggle_clearout();
    assert_eq!(s.monitor_text(), Some(("John 3:16 (KJV)".to_string(), String::new())));
    s.toggle_logo();
    assert_eq!(s.monitor_text(), Some(("EasyWorship".to_string(), "\u{271d}\nStandby Screen".to_string())));
    s.toggle_blackout();
    assert_eq!(s.monitor_text(), Some((String::new(), String::new())));
    s.select_live_row(3);
    assert_eq!(s.monitor_text(), None);
}

#[test]
fn search_results_and_target_row() {
    let mut s = sample_state();
    assert_eq!(s.target_verse_row(), None);
    let vs = vec![
        verse("KJV", "John 3:16", "a"),
        verse("HCSB", "John 3:17", "b"),
        verse("KJV", "John 3:17", "c"),
        verse("KJV", "John 3:17", "d"),
    ];
    s.apply_search(vs, Some(17));
    assert_eq!(s.selected_verse_index, None);
    assert_eq!(s.target_verse_row(), Some(2));
    s.apply_search(s.verses.clone(), None);
    assert_eq!(s.target_verse_row(), None);
    s.select_verse_row(1);
    assert_eq!(s.target_verse_row(), Some(1));
    assert!(s.toggle_keyword_search());
    assert!(!s.toggle_keyword_search());
}

#[test]
fn themes() {
    let mut s = sample_state();
    assert_eq!(s.theme_value(), "classic-red");
    s.choose_theme("royal-blue");
    assert_eq!(s.theme_value(), "royal-blue");
    s.choose_custom_theme("/m/sunrise.png");
    assert_eq!(s.theme_value(), "/m/sunrise.png");
    assert!(!s.add_custom_theme("Again", "/m/sunrise.png"));
    assert!(s.add_custom_theme("Night", "/m/night.png"));
    assert!(!s.add_custom_theme("Night", "/m/night.png"));
    assert_eq!(s.custom_themes.len(), 2);
    s.remove_custom_theme("/m/sunrise.png");
    assert_eq!(s.custom_themes, vec![("Night".to_string(), "/m/night.png".to_string())]);
    s.remove_custom_theme("/m/none.png");
    assert_eq!(s.custom_themes.len(), 1);
}

#[test]
fn slide_text_helpers() {
    let v = verse("KJV", "Psalms 23:1", "The LORD is my shepherd");
    assert_eq!(verse_slide(&v), ("Psalms 23:1 (KJV)".to_string(), "The LORD is my shepherd".to_string()));
    assert_eq!(stanza_slide_header("Hymn", 9), "Hymn - Stanza 10");
    assert_eq!(status_text(&v, 6), "KJV  |  Psalms 23:1 (Selected)  |  6 references available");
    assert_eq!(one_line("a\nb\n"), "a / b / ");
    assert_eq!(slide_summary(&"x".repeat(100)), "x".repeat(80));
    assert_eq!(slide_summary("short"), "short");
    let slides = song_slides("T", &vec!["one".to_string(), "two".to_string()]);
    assert_eq!(slides, vec![("T - Stanza 1".to_string(), "one".to_string()), ("T - Stanza 2".to_string(), "two".to_string())]);
}

#[test]
fn listed_rows_and_panel_texts() {
    let mut s = sample_state();
    assert_eq!(s.listed_indices(), vec![0, 2]);
    s.select_translation(0);
    assert_eq!(s.listed_indices(), vec![1]);
    s.select_translation(2);
    assert!(s.listed_indices().is_empty());
    let v = verse("KJV", "John 3:16", "For God");
    assert_eq!(verse_copy_text(&v), "John 3:16 - For God");
    assert_eq!(preview_title("John 3:16 (KJV)"), "Preview - John 3:16 (KJV)");
    assert_eq!(stanza_preview_title("Hymn", 0), "Preview - Hymn (Stanza 1)");
    assert_eq!(stanza_preview_title("Hymn", 11), "Preview - Hymn (Stanza 12)");
}
