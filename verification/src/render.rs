use vstd::prelude::*;

use crate::text::str_eq;

verus! {

/// The solid colours of the built-in themes.
#[derive(Clone, Copy, Debug, PartialEq, Eq)]
pub enum ThemeColor {
    ClassicRed,
    RoyalBlue,
    ForestGreen,
    DarkSlate,
    Black,
}

/// The colour of a built-in theme name; with `prefixed`, the `theme-` forms of the
/// names count too.
pub open spec fn spec_theme_color(name: Seq<char>, prefixed: bool) -> Option<ThemeColor> {
    if name == "classic-red"@ || (prefixed && name == "theme-classic-red"@) {
        Some(ThemeColor::ClassicRed)
    } else if name == "royal-blue"@ || (prefixed && name == "theme-royal-blue"@) {
        Some(ThemeColor::RoyalBlue)
    } else if name == "forest-green"@ || (prefixed && name == "theme-forest-green"@) {
        Some(ThemeColor::ForestGreen)
    } else if name == "dark-slate"@ || (prefixed && name == "theme-dark-slate"@) {
        Some(ThemeColor::DarkSlate)
    } else if name == "black"@ || (prefixed && name == "theme-black"@) {
        Some(ThemeColor::Black)
    } else {
        None
    }
}

/// The colour of a built-in theme name (`spec_theme_color`).
pub fn theme_color(name: &str, prefixed: bool) -> (r: Option<ThemeColor>)
    ensures
        r == spec_theme_color(name@, prefixed),
{
    if str_eq(name, "classic-red") || (prefixed && str_eq(name, "theme-classic-red")) {
        Some(ThemeColor::ClassicRed)
    } else if str_eq(name, "royal-blue") || (prefixed && str_eq(name, "theme-royal-blue")) {
        Some(ThemeColor::RoyalBlue)
    } else if str_eq(name, "forest-green") || (prefixed && str_eq(name, "theme-forest-green")) {
        Some(ThemeColor::ForestGreen)
    } else if str_eq(name, "dark-slate") || (prefixed && str_eq(name, "theme-dark-slate")) {
        Some(ThemeColor::DarkSlate)
    } else if str_eq(name, "black") || (prefixed && str_eq(name, "theme-black")) {
        Some(ThemeColor::Black)
    } else {
        None
    }
}

/// How a slide's background is painted.
#[derive(Clone, Copy, Debug, PartialEq, Eq)]
pub enum BackgroundPlan {
    /// A solid theme colour.
    Solid(ThemeColor),
    /// The cached background image, scaled to the slide.
    CachedImage,
    /// The theme value read as an image file; black where it cannot be loaded.
    ThemeImageOrBlack,
    /// Fully transparent.
    Transparent,
    /// Transparent, with a dark bar across the bottom.
    LowerBar,
}

/// A song stanza's background kind and value, with a transparent stanza taking the
/// default song background.
pub open spec fn spec_resolve_background(
    bg_type: Seq<char>,
    bg_path: Option<Seq<char>>,
    default_type: Seq<char>,
    default_val: Option<Seq<char>>,
) -> (Seq<char>, Option<Seq<char>>) {
    if bg_type == "transparent"@ {
        (default_type, default_val)
    } else {
        (bg_type, bg_path)
    }
}

/// The view of an optional string.
pub open spec fn opt_view(o: Option<&str>) -> Option<Seq<char>> {
    match o {
        Some(s) => Some(s@),
        None => None,
    }
}

/// The background of a live output frame.
///
/// Under blackout, black.  A slide that is not a song stanza (no background kind)
/// shows the theme: the cached image where there is one, else the theme's colour, else
/// the theme as an image file.  A stanza shows its resolved background: an image (the
/// cached one, else black), a colour or theme by name (dark slate by default; an unknown
/// name shows the cached image, else dark slate), a bottom bar, or nothing.
pub open spec fn spec_output_background(
    theme: Seq<char>,
    blackout: bool,
    cached: bool,
    bg_type: Seq<char>,
    bg_path: Option<Seq<char>>,
    default_type: Seq<char>,
    default_val: Option<Seq<char>>,
) -> BackgroundPlan {
    if blackout {
        BackgroundPlan::Solid(ThemeColor::Black)
    } else if bg_type.len() == 0 {
        if cached {
            BackgroundPlan::CachedImage
        } else {
            match spec_theme_color(theme, true) {
                Some(c) => BackgroundPlan::Solid(c),
                None => BackgroundPlan::ThemeImageOrBlack,
            }
        }
    } else {
        let (t, p) = spec_resolve_background(bg_type, bg_path, default_type, default_val);
        if t == "image"@ {
            if cached {
                BackgroundPlan::CachedImage
            } else {
                BackgroundPlan::Solid(ThemeColor::Black)
            }
        } else if t == "color"@ || t == "theme"@ {
            let name = match p {
                Some(n) => n,
                None => "dark-slate"@,
            };
            match spec_theme_color(name, true) {
                Some(c) => BackgroundPlan::Solid(c),
                None => if cached {
                    BackgroundPlan::CachedImage
                } else {
                    BackgroundPlan::Solid(ThemeColor::DarkSlate)
                },
            }
        } else if t == "lower_transparent"@ {
            BackgroundPlan::LowerBar
        } else {
            BackgroundPlan::Transparent
        }
    }
}

/// Resolves a stanza's background (`spec_resolve_background`).
pub fn resolve_background<'a>(
    bg_type: &'a str,
    bg_path: Option<&'a str>,
    default_type: &'a str,
    default_val: Option<&'a str>,
) -> (r: (&'a str, Option<&'a str>))
    ensures
        (r.0@, opt_view(r.1)) == spec_resolve_background(
            bg_type@,
            opt_view(bg_path),
            default_type@,
            opt_view(default_val),
        ),
{
    if str_eq(bg_type, "transparent") {
        (default_type, default_val)
    } else {
        (bg_type, bg_path)
    }
}

/// The background of a live output frame (`spec_output_background`).
pub fn output_background(
    theme: &str,
    blackout: bool,
    cached: bool,
    bg_type: &str,
    bg_path: Option<&str>,
    default_type: &str,
    default_val: Option<&str>,
) -> (r: BackgroundPlan)
    ensures
        r == spec_output_background(
            theme@,
            blackout,
            cached,
            bg_type@,
            opt_view(bg_path),
            default_type@,
            opt_view(default_val),
        ),
{
    if blackout {
        return BackgroundPlan::Solid(ThemeColor::Black);
    }
    if bg_type.is_empty() {
        if cached {
            return BackgroundPlan::CachedImage;
        }
        return match theme_color(theme, true) {
            Some(c) => BackgroundPlan::Solid(c),
            None => BackgroundPlan::ThemeImageOrBlack,
        };
    }
    let (t, p) = resolve_background(bg_type, bg_path, default_type, default_val);
    if str_eq(t, "image") {
        if cached {
            BackgroundPlan::CachedImage
        } else {
            BackgroundPlan::Solid(ThemeColor::Black)
        }
    } else if str_eq(t, "color") || str_eq(t, "theme") {
        let name = match p {
            Some(n) => n,
            None => "dark-slate",
        };
        match theme_color(name, true) {
            Some(c) => BackgroundPlan::Solid(c),
            None => if cached {
                BackgroundPlan::CachedImage
            } else {
                BackgroundPlan::Solid(ThemeColor::DarkSlate)
            },
        }
    } else if str_eq(t, "lower_transparent") {
        BackgroundPlan::LowerBar
    } else {
        BackgroundPlan::Transparent
    }
}

/// The background of the preview and monitor panels: black under blackout, the
/// theme value as an image where it names a file, else the theme's colour (black for
/// an unknown name).
pub open spec fn spec_panel_background(theme: Seq<char>, blackout: bool, theme_is_file: bool) -> BackgroundPlan {
    if blackout {
        BackgroundPlan::Solid(ThemeColor::Black)
    } else if theme_is_file {
        BackgroundPlan::ThemeImageOrBlack
    } else {
        match spec_theme_color(theme, false) {
            Some(c) => BackgroundPlan::Solid(c),
            None => BackgroundPlan::Solid(ThemeColor::Black),
        }
    }
}

/// The background of the preview and monitor panels (`spec_panel_background`).
pub fn panel_background(theme: &str, blackout: bool, theme_is_file: bool) -> (r: BackgroundPlan)
    ensures
        r == spec_panel_background(theme@, blackout, theme_is_file),
{
    if blackout {
        BackgroundPlan::Solid(ThemeColor::Black)
    } else if theme_is_file {
        BackgroundPlan::ThemeImageOrBlack
    } else {
        match theme_color(theme, false) {
            Some(c) => BackgroundPlan::Solid(c),
            None => BackgroundPlan::Solid(ThemeColor::Black),
        }
    }
}

/// What text a slide shows.
#[derive(Clone, Copy, Debug, PartialEq, Eq)]
pub enum TextPlan {
    /// No text.
    Nothing,
    /// The standby cross and caption.
    LogoStandby,
    /// Song lyrics in the stanza's style, over a bottom bar where it has one.
    SongLyrics { lower_bar: bool },
    /// The body centred and the reference below it.
    Scripture,
    /// The reference alone, centred.
    HeaderOnly,
}

/// The text of a live output frame: the standby caption under the logo screen
/// (unless black, or a logo image is set); otherwise, unless black or cleared, the
/// lyrics of a stanza or the Scripture text.
pub open spec fn spec_output_text(
    logo_mode: bool,
    blackout: bool,
    clearout: bool,
    has_logo_image: bool,
    bg_type: Seq<char>,
) -> TextPlan {
    if logo_mode && !blackout {
        if has_logo_image {
            TextPlan::Nothing
        } else {
            TextPlan::LogoStandby
        }
    } else if !blackout && !clearout {
        if bg_type.len() > 0 {
            TextPlan::SongLyrics { lower_bar: bg_type == "lower_transparent"@ }
        } else {
            TextPlan::Scripture
        }
    } else {
        TextPlan::Nothing
    }
}

/// The text of a live output frame (`spec_output_text`).
pub fn output_text(
    logo_mode: bool,
    blackout: bool,
    clearout: bool,
    has_logo_image: bool,
    bg_type: &str,
) -> (r: TextPlan)
    ensures
        r == spec_output_text(logo_mode, blackout, clearout, has_logo_image, bg_type@),
{
    if logo_mode && !blackout {
        if has_logo_image {
            TextPlan::Nothing
        } else {
            TextPlan::LogoStandby
        }
    } else if !blackout && !clearout {
        if !bg_type.is_empty() {
            TextPlan::SongLyrics { lower_bar: str_eq(bg_type, "lower_transparent") }
        } else {
            TextPlan::Scripture
        }
    } else {
        TextPlan::Nothing
    }
}

/// The text of the preview and monitor panels: the standby caption under the logo
/// screen, Scripture text unless black or cleared, the reference alone when cleared.
pub open spec fn spec_panel_text(logo_mode: bool, blackout: bool, clearout: bool) -> TextPlan {
    if logo_mode && !blackout {
        TextPlan::LogoStandby
    } else if !blackout && !clearout {
        TextPlan::Scripture
    } else if clearout && !blackout {
        TextPlan::HeaderOnly
    } else {
        TextPlan::Nothing
    }
}

/// The text of the preview and monitor panels (`spec_panel_text`).
pub fn panel_text(logo_mode: bool, blackout: bool, clearout: bool) -> (r: TextPlan)
    ensures
        r == spec_panel_text(logo_mode, blackout, clearout),
{
    if logo_mode && !blackout {
        TextPlan::LogoStandby
    } else if !blackout && !clearout {
        TextPlan::Scripture
    } else if clearout && !blackout {
        TextPlan::HeaderOnly
    } else {
        TextPlan::Nothing
    }
}

} // verus!

verus! {

/// How long the live output fades between slides, in milliseconds.
pub const OUTPUT_FADE_MS: u64 = 300;

/// How often, at least, the live output sends a frame, in milliseconds.
pub const KEEP_ALIVE_MS: u64 = 1000;

/// How long the monitor panel fades between slides, in milliseconds.
pub const PANEL_FADE_MS: u64 = 800;

/// What one tick of the live output does.
#[derive(Clone, Copy, Debug, PartialEq, Eq)]
pub struct FramePlan {
    /// The fade is running: the old slide's text fades out over the new one's.
    pub animating: bool,
    /// The fade has run its time and is to be forgotten.
    pub fade_over: bool,
    /// A frame is drawn and sent.
    pub render: bool,
}

/// One tick of the live output: a fade runs for `OUTPUT_FADE_MS` after a change; a
/// frame goes out on a change, during a fade, and at least every `KEEP_ALIVE_MS`.
pub open spec fn spec_frame_plan(changed: bool, fade_elapsed_ms: Option<u64>, since_sent_ms: u64) -> FramePlan {
    let animating = match fade_elapsed_ms {
        Some(e) => e < OUTPUT_FADE_MS,
        None => false,
    };
    let fade_over = match fade_elapsed_ms {
        Some(e) => e >= OUTPUT_FADE_MS,
        None => false,
    };
    FramePlan {
        animating,
        fade_over,
        render: changed || animating || since_sent_ms >= KEEP_ALIVE_MS,
    }
}

/// One tick of the live output (`spec_frame_plan`).
pub fn frame_plan(changed: bool, fade_elapsed_ms: Option<u64>, since_sent_ms: u64) -> (r: FramePlan)
    ensures
        r == spec_frame_plan(changed, fade_elapsed_ms, since_sent_ms),
{
    let (animating, fade_over) = match fade_elapsed_ms {
        Some(e) => (e < OUTPUT_FADE_MS, e >= OUTPUT_FADE_MS),
        None => (false, false),
    };
    FramePlan { animating, fade_over, render: changed || animating || since_sent_ms >= KEEP_ALIVE_MS }
}

/// Whether the live output works on a tick at all: only with a slide that is live;
/// otherwise the tick is skipped and nothing about the fade or the last slide changes.
pub fn output_active(has_slide: bool, go_live: bool) -> (r: bool)
    ensures
        r == (has_slide && go_live),
{
    has_slide && go_live
}

/// Whether the monitor panel draws a fade: during `PANEL_FADE_MS` after a change.
pub fn panel_fading(fade_elapsed_ms: Option<u64>) -> (r: bool)
    ensures
        r == (fade_elapsed_ms matches Some(e) && e < PANEL_FADE_MS),
{
    match fade_elapsed_ms {
        Some(e) => e < PANEL_FADE_MS,
        None => false,
    }
}

/// Whether the monitor panel's fade timer stops (and forgets the fade): once
/// `PANEL_FADE_MS` have passed, or when no fade is running.
pub fn panel_fade_done(fade_elapsed_ms: Option<u64>) -> (r: bool)
    ensures
        r == match fade_elapsed_ms {
            Some(e) => e >= PANEL_FADE_MS,
            None => true,
        },
{
    match fade_elapsed_ms {
        Some(e) => e >= PANEL_FADE_MS,
        None => true,
    }
}

/// The image the live output keeps loaded: the logo image on the logo screen; a
/// stanza's image; a colour or theme value that names an existing file; the theme,
/// for a slide that is not a stanza; otherwise none (empty).
pub open spec fn spec_active_background_path(
    logo_mode: bool,
    logo_image_path: Option<Seq<char>>,
    res_type: Seq<char>,
    res_path: Option<Seq<char>>,
    res_path_is_file: bool,
    theme: Seq<char>,
) -> Seq<char> {
    if logo_mode {
        match logo_image_path {
            Some(p) => p,
            None => seq![],
        }
    } else if res_type == "image"@ {
        match res_path {
            Some(p) => p,
            None => seq![],
        }
    } else if (res_type == "color"@ || res_type == "theme"@) && res_path is Some
        && res_path_is_file {
        res_path->0
    } else if res_type.len() == 0 && theme.len() > 0 {
        theme
    } else {
        seq![]
    }
}

/// The image the live output keeps loaded (`spec_active_background_path`);
/// `res_path_is_file` tells whether the resolved background value names a file.
pub fn active_background_path<'a>(
    logo_mode: bool,
    logo_image_path: Option<&'a str>,
    res_type: &'a str,
    res_path: Option<&'a str>,
    res_path_is_file: bool,
    theme: &'a str,
) -> (r: &'a str)
    ensures
        r@ == spec_active_background_path(
            logo_mode,
            opt_view(logo_image_path),
            res_type@,
            opt_view(res_path),
            res_path_is_file,
            theme@,
        ),
{
    proof {
        reveal_strlit("");
    }
    if logo_mode {
        match logo_image_path {
            Some(p) => p,
            None => "",
        }
    } else if str_eq(res_type, "image") {
        match res_path {
            Some(p) => p,
            None => "",
        }
    } else if (str_eq(res_type, "color") || str_eq(res_type, "theme")) && res_path.is_some()
        && res_path_is_file {
        match res_path {
            Some(p) => p,
            None => "",
        }
    } else if res_type.is_empty() && !theme.is_empty() {
        theme
    } else {
        ""
    }
}

/// What the live output does with its loaded background image.
#[derive(Clone, Copy, Debug, PartialEq, Eq)]
pub enum CacheAction {
    /// Load the active image (keeping the old one where loading fails).
    Load,
    /// Keep the loaded image.
    Keep,
    /// Drop the loaded image.
    Clear,
}

/// The background cache: an active image file is loaded when it is not the one
/// loaded (or none is); without an active file the cache is dropped.
pub fn cache_action(active_is_file: bool, active: &str, cached_path: &str, cache_present: bool) -> (r:
    CacheAction)
    ensures
        r == if active_is_file {
            if active@ != cached_path@ || !cache_present {
                CacheAction::Load
            } else {
                CacheAction::Keep
            }
        } else {
            CacheAction::Clear
        },
{
    if active_is_file {
        if !str_eq(active, cached_path) || !cache_present {
            CacheAction::Load
        } else {
            CacheAction::Keep
        }
    } else {
        CacheAction::Clear
    }
}

} // verus!

verus! {

/// Blackout paints the live output black, whatever the theme, the cached image and
/// the kind of slide (Scripture, standby or any song background).
pub proof fn law_blackout_output_is_black(
    theme: Seq<char>,
    cached: bool,
    bg_type: Seq<char>,
    bg_path: Option<Seq<char>>,
    default_type: Seq<char>,
    default_val: Option<Seq<char>>,
)
    ensures
        spec_output_background(theme, true, cached, bg_type, bg_path, default_type, default_val)
            == BackgroundPlan::Solid(ThemeColor::Black),
{
}

/// Blackout paints the preview and monitor panels black, whatever the theme.
pub proof fn law_blackout_panel_is_black(theme: Seq<char>, theme_is_file: bool)
    ensures
        spec_panel_background(theme, true, theme_is_file) == BackgroundPlan::Solid(ThemeColor::Black),
{
}

/// Blackout shows no text on the live output, whatever the other modes and the slide.
pub proof fn law_blackout_output_has_no_text(
    logo_mode: bool,
    clearout: bool,
    has_logo_image: bool,
    bg_type: Seq<char>,
)
    ensures
        spec_output_text(logo_mode, true, clearout, has_logo_image, bg_type) == TextPlan::Nothing,
{
}

/// The live output keeps sending: a change, a running fade, or `KEEP_ALIVE_MS` or more
/// since the last frame each send one; and waiting longer never stops a frame that
/// would be sent.
pub proof fn law_frames_keep_coming(
    changed: bool,
    fade_elapsed_ms: Option<u64>,
    since_sent_ms: u64,
    later_ms: u64,
)
    ensures
        since_sent_ms >= KEEP_ALIVE_MS ==> spec_frame_plan(changed, fade_elapsed_ms, since_sent_ms).render,
        changed ==> spec_frame_plan(changed, fade_elapsed_ms, since_sent_ms).render,
        (fade_elapsed_ms matches Some(e) && e < OUTPUT_FADE_MS) ==> spec_frame_plan(
            changed,
            fade_elapsed_ms,
            since_sent_ms,
        ).render,
        since_sent_ms <= later_ms && spec_frame_plan(changed, fade_elapsed_ms, since_sent_ms).render
            ==> spec_frame_plan(changed, fade_elapsed_ms, later_ms).render,
        !changed && fade_elapsed_ms is None && since_sent_ms < KEEP_ALIVE_MS ==> !spec_frame_plan(
            changed,
            fade_elapsed_ms,
            since_sent_ms,
        ).render,
{
}

/// A fade either runs or is over once started, never both; without one, neither.
pub proof fn law_fade_runs_then_ends(changed: bool, fade_elapsed_ms: Option<u64>, since_sent_ms: u64)
    ensures
        ({
            let p = spec_frame_plan(changed, fade_elapsed_ms, since_sent_ms);
            &&& fade_elapsed_ms is Some ==> (p.animating != p.fade_over)
            &&& fade_elapsed_ms is None ==> (!p.animating && !p.fade_over)
            &&& (fade_elapsed_ms matches Some(e) && e >= OUTPUT_FADE_MS) ==> p.fade_over
        }),
{
}

} // verus!

verus! {

/// Clear hides the slide's text on the live output (short of the logo screen), and
/// leaves the reference alone on the panels; the logo screen, unless black, shows
/// the standby caption where no logo image is set.
pub proof fn law_clear_and_logo_text(has_logo_image: bool, bg_type: Seq<char>)
    ensures
        spec_output_text(false, false, true, has_logo_image, bg_type) == TextPlan::Nothing,
        spec_panel_text(false, false, true) == TextPlan::HeaderOnly,
        spec_output_text(true, false, false, false, bg_type) == TextPlan::LogoStandby,
        spec_output_text(true, false, true, false, bg_type) == TextPlan::LogoStandby,
        spec_output_text(true, false, false, true, bg_type) == TextPlan::Nothing,
        spec_panel_text(true, false, true) == TextPlan::LogoStandby,
        spec_panel_text(true, true, false) == TextPlan::Nothing,
{
}

} // verus!
