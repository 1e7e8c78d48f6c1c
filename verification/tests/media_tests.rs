use church_presenter::media::{
    ffmpeg_args, imported_media_dest, imported_media_dir, import_step, is_png_path, is_video_name, is_video_path,
    needs_resize, parse_dimensions, strip_verbatim_prefix, thumbnail_css, ImportStep,
};

#[test]
fn video_and_image_names() {
    assert!(is_video_path("/m/Sermon.MP4"));
    assert!(is_video_path("clip.mkv"));
    assert!(is_video_path("C:/x/Clip.Avi"));
    assert!(!is_video_path("/m/cross.png"));
    assert!(!is_video_path("mp4"));
    assert!(is_video_name("a.mp4"));
    assert!(!is_video_name("a.MP4"));
    assert!(is_png_path("/m/Cross.PNG"));
    assert!(!is_png_path("/m/cross.jpg"));
}

#[test]
fn thumbnail_style() {
    assert_eq!(
        thumbnail_css("C:\\My Media\\a b.png"),
        "* { background-image: url('file:///C:/My%20Media/a%20b.png'); background-size: cover; background-repeat: no-repeat; background-position: center; }"
    );
}

#[test]
fn import_destination_and_step() {
    let saves = "/home/thruqe/Documents/Church-Presenter/saves";
    assert_eq!(imported_media_dir(saves), "/home/thruqe/Documents/Church-Presenter/saves/imported_media");
    assert_eq!(imported_media_dest(saves, "a.png"), "/home/thruqe/Documents/Church-Presenter/saves/imported_media/a.png");
    assert!(needs_resize(Some((1921, 1080))));
    assert!(needs_resize(Some((1920, 1081))));
    assert!(!needs_resize(Some((1920, 1080))));
    assert!(!needs_resize(None));
    assert_eq!(import_step(true, Some((4000, 3000))), ImportStep::Keep);
    assert_eq!(import_step(false, Some((4000, 3000))), ImportStep::Resize);
    assert_eq!(import_step(false, Some((640, 480))), ImportStep::Copy);
    assert_eq!(import_step(false, None), ImportStep::Copy);
}

#[test]
fn ffmpeg_arguments() {
    let scale = "scale='min(1920,iw)':'min(1080,ih)':force_original_aspect_ratio=decrease";
    assert_eq!(ffmpeg_args("in.MOV.Mp4", "out.mp4"), vec!["-y", "-i", "in.MOV.Mp4", "-vf", scale, "-c:v", "libx264", "-crf", "20", "out.mp4"]);
    assert_eq!(ffmpeg_args("in.PNG", "out.png"), vec!["-y", "-i", "in.PNG", "-vf", scale, "-compression_level", "9", "out.png"]);
    assert_eq!(ffmpeg_args("in.jpg", "out.jpg"), vec!["-y", "-i", "in.jpg", "-vf", scale, "-q:v", "8", "out.jpg"]);
}

#[test]
fn verbatim_prefix() {
    assert_eq!(strip_verbatim_prefix("\\\\?\\C:\\m\\a.png"), "C:\\m\\a.png");
    assert_eq!(strip_verbatim_prefix("/home/a.png"), "/home/a.png");
    assert_eq!(strip_verbatim_prefix("\\\\?"), "\\\\?");
}

#[test]
fn probed_dimensions() {
    assert_eq!(parse_dimensions("1920x1080\n"), Some((1920, 1080)));
    assert_eq!(parse_dimensions("  640x480x3 "), Some((640, 480)));
    assert_eq!(parse_dimensions("640"), None);
    assert_eq!(parse_dimensions(""), None);
    assert_eq!(parse_dimensions("axb"), None);
    assert_eq!(parse_dimensions("+7x-2"), Some((7, -2)));
    assert_eq!(parse_dimensions("99999999999x2"), None);
    assert_eq!(parse_dimensions("640x"), None);
}
