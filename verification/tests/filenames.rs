use videoserve::filename::{extension, has_video_extension, is_safe_filename, is_video_extension};
use videoserve::listing::{get_video_list, listing_body, DirEntry};

#[test]
fn extension_is_the_part_after_the_last_dot() {
    assert_eq!(extension("clip.mp4"), Some("mp4".to_string()));
    assert_eq!(extension("archive.tar.mp4"), Some("mp4".to_string()));
    assert_eq!(extension("trailing."), Some("".to_string()));
    assert_eq!(extension("noextension"), None);
    assert_eq!(extension(""), None);
    assert_eq!(extension(".hidden"), None);
    assert_eq!(extension(".hidden.avi"), Some("avi".to_string()));
}

#[test]
fn recognized_extensions_are_exactly_the_four() {
    assert!(is_video_extension("mp4"));
    assert!(is_video_extension("avi"));
    assert!(is_video_extension("webm"));
    assert!(is_video_extension("mkv"));
    assert!(!is_video_extension("txt"));
    assert!(!is_video_extension("jpg"));
    assert!(!is_video_extension("MP4"));
    assert!(!is_video_extension(""));
}

#[test]
fn video_names_need_a_recognized_extension() {
    assert!(has_video_extension("clip.mp4"));
    assert!(has_video_extension("a.b.webm"));
    assert!(!has_video_extension("clip.MP4"));
    assert!(!has_video_extension("mp4"));
    assert!(!has_video_extension(".mp4"));
    assert!(!has_video_extension("clip.mp4.txt"));
}

#[test]
fn safe_filenames_are_single_path_segments() {
    assert!(is_safe_filename("clip.mp4"));
    assert!(is_safe_filename("..clip.mp4"));
    assert!(!is_safe_filename(""));
    assert!(!is_safe_filename("."));
    assert!(!is_safe_filename(".."));
    assert!(!is_safe_filename("../secret.mp4"));
    assert!(!is_safe_filename("a/b.mp4"));
    assert!(!is_safe_filename("a\\b.mp4"));
}

#[test]
fn video_list_keeps_scan_order() {
    let entries = vec![
        DirEntry { name: "z.mkv".to_string(), is_regular_file: true },
        DirEntry { name: "a.txt".to_string(), is_regular_file: true },
        DirEntry { name: "m.mp4".to_string(), is_regular_file: true },
    ];
    let files = get_video_list(&entries);
    assert_eq!(files, vec!["z.mkv".to_string(), "m.mp4".to_string()]);
}

#[test]
fn listing_body_joins_links_with_breaks() {
    let files = vec!["a.mp4".to_string(), "b.avi".to_string()];
    assert_eq!(
        listing_body(&files),
        "<a href=\"/player/a.mp4\">a.mp4</a><br><a href=\"/player/b.avi\">b.avi</a>"
    );
    assert_eq!(listing_body(&Vec::new()), "");
    assert_eq!(
        listing_body(&vec!["only.webm".to_string()]),
        "<a href=\"/player/only.webm\">only.webm</a>"
    );
}
