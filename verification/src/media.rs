use vstd::prelude::*;

use crate::text::{
    chars_of, ends_with, find, find_range, has_suffix, lowercase, parse_i32, parse_i32_range,
    push_str, string_of, to_lower, trim, trim_range,
};

verus! {

/// A lower-cased file name of a video: it ends in `.mp4`, `.mkv` or `.avi`.
pub open spec fn spec_is_video_name(lower: Seq<char>) -> bool {
    has_suffix(lower, ".mp4"@) || has_suffix(lower, ".mkv"@) || has_suffix(lower, ".avi"@)
}

/// Whether an already lower-cased file name names a video.
pub fn is_video_name(lower: &str) -> (r: bool)
    ensures
        r == spec_is_video_name(lower@),
{
    ends_with(lower, ".mp4") || ends_with(lower, ".mkv") || ends_with(lower, ".avi")
}

/// Whether a media path names a video, whatever the case of its extension.
pub fn is_video_path(path: &str) -> (r: bool)
    ensures
        r == spec_is_video_name(lowercase(path@)),
{
    let lower = to_lower(path);
    is_video_name(lower.as_str())
}

/// Whether a media path names a PNG image, whatever the case of its extension.
pub fn is_png_path(path: &str) -> (r: bool)
    ensures
        r == has_suffix(lowercase(path@), ".png"@),
{
    let lower = to_lower(path);
    ends_with(lower.as_str(), ".png")
}

/// A path as written into a CSS `file:///` URL: each `\` becomes `/` and each space
/// becomes `%20`.
pub open spec fn css_path(s: Seq<char>) -> Seq<char>
    decreases s.len(),
{
    if s.len() == 0 {
        seq![]
    } else {
        css_path(s.drop_last()) + css_char(s.last())
    }
}

/// What one character of a path becomes in a CSS URL.
pub open spec fn css_char(c: char) -> Seq<char> {
    if c == '\\' {
        seq!['/']
    } else if c == ' ' {
        seq!['%', '2', '0']
    } else {
        seq![c]
    }
}

/// The style that shows an image file as a card's cover background.
pub open spec fn spec_thumbnail_css(path: Seq<char>) -> Seq<char> {
    "* { background-image: url('file:///"@ + css_path(path)
        + "'); background-size: cover; background-repeat: no-repeat; background-position: center; }"@
}

/// The CSS that a media or theme card uses to show an image as its thumbnail.
pub fn thumbnail_css(path: &str) -> (r: String)
    ensures
        r@ == spec_thumbnail_css(path@),
{
    let v = chars_of(path);
    let mut out: Vec<char> = Vec::new();
    push_str(&mut out, "* { background-image: url('file:///");
    let ghost head = out@;
    let mut i: usize = 0;
    while i < v.len()
        invariant
            i <= v@.len(),
            v@ == path@,
            out@ == head + css_path(v@.take(i as int)),
        decreases v@.len() - i,
    {
        assert(v@.take(i + 1).drop_last() =~= v@.take(i as int));
        let c = v[i];
        if c == '\\' {
            out.push('/');
        } else if c == ' ' {
            out.push('%');
            out.push('2');
            out.push('0');
        } else {
            out.push(c);
        }
        assert(out@ =~= head + css_path(v@.take(i + 1)));
        i = i + 1;
    }
    assert(v@.take(v@.len() as int) =~= v@);
    push_str(
        &mut out,
        "'); background-size: cover; background-repeat: no-repeat; background-position: center; }",
    );
    assert(out@ =~= spec_thumbnail_css(path@));
    string_of(&out)
}

/// The folder that imported media are copied into.
pub open spec fn spec_media_dir(saves: Seq<char>) -> Seq<char> {
    saves + "/imported_media"@
}

/// `{saves}/imported_media`.
pub fn imported_media_dir(saves_dir: &str) -> (r: String)
    ensures
        r@ == spec_media_dir(saves_dir@),
{
    let mut out = chars_of(saves_dir);
    push_str(&mut out, "/imported_media");
    string_of(&out)
}

/// `{saves}/imported_media/{file_name}`: where an imported file is stored.
pub fn imported_media_dest(saves_dir: &str, file_name: &str) -> (r: String)
    ensures
        r@ == spec_media_dir(saves_dir@) + "/"@ + file_name@,
{
    let mut out = chars_of(saves_dir);
    push_str(&mut out, "/imported_media");
    push_str(&mut out, "/");
    push_str(&mut out, file_name);
    string_of(&out)
}

/// A picture or video larger than 1920 x 1080 is scaled down on import.
pub open spec fn spec_needs_resize(dims: Option<(i32, i32)>) -> bool {
    match dims {
        Some((w, h)) => w > 1920 || h > 1080,
        None => false,
    }
}

/// Whether media of the probed size (`None` where it could not be probed) are scaled
/// down on import.
pub fn needs_resize(dims: Option<(i32, i32)>) -> (r: bool)
    ensures
        r == spec_needs_resize(dims),
{
    match dims {
        Some((w, h)) => w > 1920 || h > 1080,
        None => false,
    }
}

/// What an import does with the chosen file.
#[derive(Clone, Copy, Debug, PartialEq, Eq, Structural)]
pub enum ImportStep {
    /// The destination exists already: nothing is copied.
    Keep,
    /// The file is copied as it is.
    Copy,
    /// The file is scaled down with ffmpeg (and copied as it is should that fail).
    Resize,
}

/// The step an import takes.
pub open spec fn spec_import_step(already_exists: bool, dims: Option<(i32, i32)>) -> ImportStep {
    if already_exists {
        ImportStep::Keep
    } else if spec_needs_resize(dims) {
        ImportStep::Resize
    } else {
        ImportStep::Copy
    }
}

/// Chooses what an import does, given whether the destination exists and the probed
/// size of the source.
pub fn import_step(already_exists: bool, dims: Option<(i32, i32)>) -> (r: ImportStep)
    ensures
        r == spec_import_step(already_exists, dims),
{
    if already_exists {
        ImportStep::Keep
    } else if needs_resize(dims) {
        ImportStep::Resize
    } else {
        ImportStep::Copy
    }
}

/// The characters of each string.
pub open spec fn string_views(v: Seq<String>) -> Seq<Seq<char>> {
    Seq::new(v.len(), |i: int| v[i]@)
}

/// The ffmpeg arguments that scale `src` down into `dest`; `lower` is `src` lower-cased.
/// Videos are re-encoded with x264, PNG images compressed, other images saved at a
/// lower quality.
pub open spec fn spec_ffmpeg_args(src: Seq<char>, dest: Seq<char>, lower: Seq<char>) -> Seq<
    Seq<char>,
> {
    seq![
        "-y"@,
        "-i"@,
        src,
        "-vf"@,
        "scale='min(1920,iw)':'min(1080,ih)':force_original_aspect_ratio=decrease"@,
    ] + (if spec_is_video_name(lower) {
        seq!["-c:v"@, "libx264"@, "-crf"@, "20"@]
    } else if has_suffix(lower, ".png"@) {
        seq!["-compression_level"@, "9"@]
    } else {
        seq!["-q:v"@, "8"@]
    }) + seq![dest]
}

/// The ffmpeg arguments for scaling `src` down into `dest`, given `src` lower-cased.
pub fn ffmpeg_args_lowered(src: &str, dest: &str, lower: &str) -> (r: Vec<String>)
    ensures
        string_views(r@) == spec_ffmpeg_args(src@, dest@, lower@),
{
    let mut args: Vec<String> = Vec::new();
    args.push("-y".to_owned());
    args.push("-i".to_owned());
    args.push(src.to_owned());
    args.push("-vf".to_owned());
    args.push(
        "scale='min(1920,iw)':'min(1080,ih)':force_original_aspect_ratio=decrease".to_owned(),
    );
    if is_video_name(lower) {
        args.push("-c:v".to_owned());
        args.push("libx264".to_owned());
        args.push("-crf".to_owned());
        args.push("20".to_owned());
    } else if ends_with(lower, ".png") {
        args.push("-compression_level".to_owned());
        args.push("9".to_owned());
    } else {
        args.push("-q:v".to_owned());
        args.push("8".to_owned());
    }
    args.push(dest.to_owned());
    assert(string_views(args@) =~= spec_ffmpeg_args(src@, dest@, lower@));
    args
}

/// The ffmpeg arguments for scaling the media file `src` down into `dest`.
pub fn ffmpeg_args(src: &str, dest: &str) -> (r: Vec<String>)
    ensures
        string_views(r@) == spec_ffmpeg_args(src@, dest@, lowercase(src@)),
{
    let lower = to_lower(src);
    ffmpeg_args_lowered(src, dest, lower.as_str())
}

/// The `\\?\` prefix that Windows puts before an extended-length path.
pub open spec fn verbatim_prefix() -> Seq<char> {
    seq!['\\', '\\', '?', '\\']
}

/// A path without a leading `\\?\`.
pub open spec fn spec_strip_verbatim(p: Seq<char>) -> Seq<char> {
    if p.len() >= 4 && p.take(4) == verbatim_prefix() {
        p.skip(4)
    } else {
        p
    }
}

/// Drops a leading `\\?\` from an absolute path.
pub fn strip_verbatim_prefix(path: &str) -> (r: String)
    ensures
        r@ == spec_strip_verbatim(path@),
{
    let v = chars_of(path);
    if v.len() >= 4 && v[0] == '\\' && v[1] == '\\' && v[2] == '?' && v[3] == '\\' {
        assert(v@.take(4) =~= verbatim_prefix());
        crate::text::string_of_range(&v, 4, v.len())
    } else {
        proof {
            if v@.len() >= 4 && v@.take(4) == verbatim_prefix() {
                assert(v@.take(4)[0] == v@[0]);
                assert(v@.take(4)[1] == v@[1]);
                assert(v@.take(4)[2] == v@[2]);
                assert(v@.take(4)[3] == v@[3]);
            }
        }
        path.to_owned()
    }
}

/// A size reported as `WIDTHxHEIGHT`: the text is trimmed and cut at each `x`; the
/// first two pieces must parse as `i32`.
pub open spec fn spec_parse_dimensions(out: Seq<char>) -> Option<(i32, i32)> {
    let t = trim(out);
    match find(t, 'x') {
        None => None,
        Some(i) => {
            let rest = t.skip(i + 1);
            let hs = match find(rest, 'x') {
                Some(j) => rest.take(j),
                None => rest,
            };
            match (parse_i32(t.take(i)), parse_i32(hs)) {
                (Some(w), Some(h)) => Some((w, h)),
                _ => None,
            }
        },
    }
}

/// Reads the width and height that ffprobe printed as `WIDTHxHEIGHT`.
pub fn parse_dimensions(out: &str) -> (r: Option<(i32, i32)>)
    ensures
        r == spec_parse_dimensions(out@),
{
    let v = chars_of(out);
    let (lo, hi) = trim_range(&v, 0, v.len());
    let ghost t = v@.subrange(lo as int, hi as int);
    assert(v@.subrange(0, v@.len() as int) =~= v@);
    match find_range(&v, lo, hi, 'x') {
        None => None,
        Some(k) => {
            let ghost rest = t.skip(k - lo + 1);
            assert(rest =~= v@.subrange(k + 1, hi as int));
            assert(t.take(k - lo) =~= v@.subrange(lo as int, k as int));
            let end = match find_range(&v, k + 1, hi, 'x') {
                Some(m) => {
                    assert(rest.take(m - (k + 1)) =~= v@.subrange(k + 1, m as int));
                    m
                },
                None => {
                    assert(rest =~= v@.subrange(k + 1, hi as int));
                    hi
                },
            };
            let w = parse_i32_range(&v, lo, k);
            let h = parse_i32_range(&v, k + 1, end);
            match (w, h) {
                (Some(w), Some(h)) => Some((w, h)),
                _ => None,
            }
        },
    }
}

} // verus!

verus! {

/// The ffmpeg arguments overwrite the destination, read the source, scale down to at
/// most 1920 x 1080 keeping the aspect ratio, and end with the destination; in
/// between, a `.mp4`, `.mkv` or `.avi` file (by its lower-cased name) is re-encoded
/// with x264 at quality 20, any other `.png` compressed at level 9, and any other
/// file written at quality 8.
pub proof fn law_ffmpeg_args_by_kind(src: Seq<char>, dest: Seq<char>, lower: Seq<char>)
    ensures
        ({
            let a = spec_ffmpeg_args(src, dest, lower);
            let video = has_suffix(lower, ".mp4"@) || has_suffix(lower, ".mkv"@) || has_suffix(
                lower,
                ".avi"@,
            );
            &&& a.len() >= 8
            &&& a[0] == "-y"@ && a[1] == "-i"@ && a[2] == src && a[3] == "-vf"@
            &&& a[4] == "scale='min(1920,iw)':'min(1080,ih)':force_original_aspect_ratio=decrease"@
            &&& a.last() == dest
            &&& video ==> a.len() == 10 && a[5] == "-c:v"@ && a[6] == "libx264"@ && a[7]
                == "-crf"@ && a[8] == "20"@
            &&& !video && has_suffix(lower, ".png"@) ==> a.len() == 8 && a[5]
                == "-compression_level"@ && a[6] == "9"@
            &&& !video && !has_suffix(lower, ".png"@) ==> a.len() == 8 && a[5] == "-q:v"@ && a[6]
                == "8"@
        }),
{
}

/// Media larger than 1920 x 1080 in either direction, and only those, are scaled down
/// on import; a file already imported is kept and one of unknown size copied.
pub proof fn law_import_step_by_size(already_exists: bool, dims: Option<(i32, i32)>)
    ensures
        already_exists ==> spec_import_step(already_exists, dims) == ImportStep::Keep,
        !already_exists && dims is None ==> spec_import_step(already_exists, dims) == ImportStep::Copy,
        !already_exists && (dims matches Some((w, h)) && (w > 1920 || h > 1080)) ==> spec_import_step(
            already_exists,
            dims,
        ) == ImportStep::Resize,
        !already_exists && (dims matches Some((w, h)) && w <= 1920 && h <= 1080) ==> spec_import_step(
            already_exists,
            dims,
        ) == ImportStep::Copy,
{
}

} // verus!
