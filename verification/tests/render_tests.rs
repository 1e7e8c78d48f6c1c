use church_presenter::render::{
    active_background_path, cache_action, output_active, frame_plan, output_background, output_text, panel_background,
    panel_fade_done, panel_fading, panel_text, resolve_background, theme_color, BackgroundPlan, CacheAction,
    FramePlan, TextPlan, ThemeColor, KEEP_ALIVE_MS, OUTPUT_FADE_MS, PANEL_FADE_MS,
};

#[test]
fn theme_names() {
    assert_eq!(theme_color("classic-red", false), Some(ThemeColor::ClassicRed));
    assert_eq!(theme_color("theme-royal-blue", true), Some(ThemeColor::RoyalBlue));
    assert_eq!(theme_color("theme-royal-blue", false), None);
    assert_eq!(theme_color("forest-green", true), Some(ThemeColor::ForestGreen));
    assert_eq!(theme_color("dark-slate", false), Some(ThemeColor::DarkSlate));
    assert_eq!(theme_color("black", false), Some(ThemeColor::Black));
    assert_eq!(theme_color("purple", true), None);
}

#[test]
fn output_backgrounds() {
    assert_eq!(output_background("royal-blue", true, true, "image", Some("a.png"), "", None), BackgroundPlan::Solid(ThemeColor::Black));
    assert_eq!(output_background("royal-blue", false, false, "", None, "", None), BackgroundPlan::Solid(ThemeColor::RoyalBlue));
    assert_eq!(output_background("royal-blue", false, true, "", None, "", None), BackgroundPlan::CachedImage);
    assert_eq!(output_background("/x/bg.png", false, false, "", None, "", None), BackgroundPlan::ThemeImageOrBlack);
    assert_eq!(output_background("black", false, false, "image", Some("a.png"), "", None), BackgroundPlan::Solid(ThemeColor::Black));
    assert_eq!(output_background("black", false, true, "image", Some("a.png"), "", None), BackgroundPlan::CachedImage);
    assert_eq!(output_background("black", false, false, "color", None, "", None), BackgroundPlan::Solid(ThemeColor::DarkSlate));
    assert_eq!(output_background("black", false, false, "theme", Some("forest-green"), "", None), BackgroundPlan::Solid(ThemeColor::ForestGreen));
    assert_eq!(output_background("black", false, true, "color", Some("/p.png"), "", None), BackgroundPlan::CachedImage);
    assert_eq!(output_background("black", false, false, "color", Some("/p.png"), "", None), BackgroundPlan::Solid(ThemeColor::DarkSlate));
    assert_eq!(output_background("black", false, false, "lower_transparent", None, "", None), BackgroundPlan::LowerBar);
    assert_eq!(output_background("black", false, false, "transparent", None, "theme", Some("royal-blue")), BackgroundPlan::Solid(ThemeColor::RoyalBlue));
    assert_eq!(output_background("black", false, false, "transparent", None, "transparent", None), BackgroundPlan::Transparent);
    assert_eq!(resolve_background("transparent", Some("x"), "image", Some("y")), ("image", Some("y")));
    assert_eq!(resolve_background("color", Some("x"), "image", Some("y")), ("color", Some("x")));
}

#[test]
fn panel_backgrounds_and_texts() {
    assert_eq!(panel_background("royal-blue", true, false), BackgroundPlan::Solid(ThemeColor::Black));
    assert_eq!(panel_background("/a.png", false, true), BackgroundPlan::ThemeImageOrBlack);
    assert_eq!(panel_background("theme-royal-blue", false, false), BackgroundPlan::Solid(ThemeColor::Black));
    assert_eq!(panel_background("forest-green", false, false), BackgroundPlan::Solid(ThemeColor::ForestGreen));
    assert_eq!(panel_text(true, false, false), TextPlan::LogoStandby);
    assert_eq!(panel_text(true, true, false), TextPlan::Nothing);
    assert_eq!(panel_text(false, false, false), TextPlan::Scripture);
    assert_eq!(panel_text(false, false, true), TextPlan::HeaderOnly);
    assert_eq!(output_text(true, false, false, true, ""), TextPlan::Nothing);
    assert_eq!(output_text(true, false, false, false, ""), TextPlan::LogoStandby);
    assert_eq!(output_text(false, false, false, false, "lower_transparent"), TextPlan::SongLyrics { lower_bar: true });
    assert_eq!(output_text(false, false, false, false, "image"), TextPlan::SongLyrics { lower_bar: false });
    assert_eq!(output_text(false, false, false, false, ""), TextPlan::Scripture);
    assert_eq!(output_text(false, false, true, false, ""), TextPlan::Nothing);
}

#[test]
fn frame_timing() {
    assert_eq!((OUTPUT_FADE_MS, KEEP_ALIVE_MS, PANEL_FADE_MS), (300, 1000, 800));
    assert_eq!(frame_plan(false, None, 10), FramePlan { animating: false, fade_over: false, render: false });
    assert_eq!(frame_plan(true, None, 10), FramePlan { animating: false, fade_over: false, render: true });
    assert_eq!(frame_plan(false, Some(120), 10), FramePlan { animating: true, fade_over: false, render: true });
    assert_eq!(frame_plan(false, Some(300), 10), FramePlan { animating: false, fade_over: true, render: false });
    assert_eq!(frame_plan(false, None, 1000), FramePlan { animating: false, fade_over: false, render: true });
    assert!(panel_fading(Some(799)));
    assert!(!panel_fading(Some(800)));
    assert!(!panel_fading(None));
    assert!(panel_fade_done(None));
    assert!(panel_fade_done(Some(800)));
    assert!(!panel_fade_done(Some(10)));
}

#[test]
fn background_cache() {
    assert_eq!(active_background_path(true, Some("/logo.png"), "image", Some("/a.png"), true, "t"), "/logo.png");
    assert_eq!(active_background_path(true, None, "image", Some("/a.png"), true, "t"), "");
    assert_eq!(active_background_path(false, None, "image", Some("/a.png"), false, "t"), "/a.png");
    assert_eq!(active_background_path(false, None, "color", Some("/c.png"), true, "t"), "/c.png");
    assert_eq!(active_background_path(false, None, "color", Some("red"), false, "t"), "");
    assert_eq!(active_background_path(false, None, "", None, false, "royal-blue"), "royal-blue");
    assert_eq!(cache_action(true, "/a.png", "/b.png", true), CacheAction::Load);
    assert_eq!(cache_action(true, "/a.png", "/a.png", false), CacheAction::Load);
    assert_eq!(cache_action(true, "/a.png", "/a.png", true), CacheAction::Keep);
    assert_eq!(cache_action(false, "/a.png", "/a.png", true), CacheAction::Clear);
}

#[test]
fn output_works_only_on_a_live_slide() {
    assert!(output_active(true, true));
    assert!(!output_active(true, false));
    assert!(!output_active(false, true));
    assert!(!output_active(false, false));
}
