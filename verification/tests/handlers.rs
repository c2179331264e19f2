use videoserve::listing::{index_response, DirEntry};
use videoserve::player::player_response_from_render;
use videoserve::video::{content_type_for, video_response};

fn entry(name: &str, is_regular_file: bool) -> DirEntry {
    DirEntry { name: name.to_string(), is_regular_file }
}

fn player_tera() -> tera::Tera {
    let mut t = tera::Tera::default();
    t.add_raw_template("player.html", "<video src=\"/video/{{ filename }}\"></video>")
        .unwrap();
    t
}

// Renders the player template as the application does, at the edge, and
// hands the outcome to the library.
fn rendered_player(t: &tera::Tera, filename: &str) -> Result<String, ()> {
    let mut ctx = tera::Context::new();
    ctx.insert("filename", &filename);
    t.render("player.html", &ctx).map_err(|_| ())
}

#[test]
fn listing_mixed_directory_links_recognized_files_only() {
    let entries = vec![
        entry("clip.mp4", true),
        entry("notes.txt", true),
        entry("movie.avi", true),
        entry("photo.jpg", true),
        entry("trailer.webm", true),
        entry("show.mkv", true),
    ];
    let r = index_response(Some(entries));
    assert_eq!(r.status, 200);
    assert_eq!(r.content_type, "text/html");
    assert_eq!(
        r.body,
        "<a href=\"/player/clip.mp4\">clip.mp4</a><br>\
         <a href=\"/player/movie.avi\">movie.avi</a><br>\
         <a href=\"/player/trailer.webm\">trailer.webm</a><br>\
         <a href=\"/player/show.mkv\">show.mkv</a>"
    );
    assert!(!r.body.contains("notes.txt"));
    assert!(!r.body.contains("photo.jpg"));
}

#[test]
fn listing_skips_directories_even_with_video_extension() {
    let entries = vec![entry("folder.mp4", false), entry("clip.mp4", true)];
    let r = index_response(Some(entries));
    assert_eq!(r.status, 200);
    assert_eq!(r.body, "<a href=\"/player/clip.mp4\">clip.mp4</a>");
}

#[test]
fn listing_of_empty_directory_is_empty_with_status_200() {
    let r = index_response(Some(Vec::new()));
    assert_eq!(r.status, 200);
    assert_eq!(r.body, "");
}

#[test]
fn listing_of_unreadable_directory_is_a_server_error() {
    let r = index_response(None);
    assert_eq!(r.status, 500);
    assert_eq!(r.body, "could not read the video directory");
}

#[test]
fn player_page_embeds_the_filename() {
    let t = player_tera();
    let r = player_response_from_render(rendered_player(&t, "anything at all.mp4"));
    assert_eq!(r.status, 200);
    assert_eq!(r.content_type, "text/html; charset=utf-8");
    assert!(r.body.contains("anything at all.mp4"));
    assert_eq!(r.body, "<video src=\"/video/anything at all.mp4\"></video>");
}

#[test]
fn player_page_renders_for_a_file_that_does_not_exist() {
    let t = player_tera();
    let r = player_response_from_render(rendered_player(&t, "no-such-file.mkv"));
    assert_eq!(r.status, 200);
    assert!(r.body.contains("no-such-file.mkv"));
}

#[test]
fn player_response_carries_the_rendered_page_unchanged() {
    let r = player_response_from_render(Ok("whole page".to_string()));
    assert_eq!(r.status, 200);
    assert_eq!(r.content_type, "text/html; charset=utf-8");
    assert_eq!(r.body, "whole page");
}

#[test]
fn player_page_without_the_template_is_a_server_error() {
    let t = tera::Tera::default();
    let r = player_response_from_render(rendered_player(&t, "clip.mp4"));
    assert_eq!(r.status, 500);
    assert_eq!(r.content_type, "text/plain; charset=utf-8");
    assert_eq!(r.body, "template rendering error");
}

#[test]
fn video_present_file_is_streamed_with_its_bytes_and_type() {
    let bytes = vec![0u8, 1, 2, 3, 255];
    let r = video_response("clip.mp4", Some(bytes.clone()));
    assert_eq!(r.status, 200);
    assert_eq!(r.content_type, "video/mp4");
    assert_eq!(r.body, bytes);
}

#[test]
fn video_missing_file_is_not_found() {
    let r = video_response("missing.mp4", None);
    assert_eq!(r.status, 404);
    assert_eq!(r.content_type, "text/plain; charset=utf-8");
    assert_eq!(r.body, b"file not found".to_vec());
}

#[test]
fn video_avi_is_served_as_a_generic_byte_stream() {
    let r = video_response("clip.avi", Some(vec![9u8]));
    assert_eq!(r.status, 200);
    assert_eq!(r.content_type, "application/octet-stream");
}

#[test]
fn content_types_by_extension() {
    assert_eq!(content_type_for("a.mp4"), "video/mp4");
    assert_eq!(content_type_for("a.webm"), "video/webm");
    assert_eq!(content_type_for("a.mkv"), "video/x-matroska");
    assert_eq!(content_type_for("a.avi"), "application/octet-stream");
    assert_eq!(content_type_for("a.txt"), "application/octet-stream");
    assert_eq!(content_type_for("noextension"), "application/octet-stream");
    assert_eq!(content_type_for("a.tar.mp4"), "video/mp4");
}

#[test]
fn repeated_requests_with_unchanged_state_answer_the_same() {
    let entries1 = vec![entry("clip.mp4", true), entry("notes.txt", true)];
    let entries2 = vec![entry("clip.mp4", true), entry("notes.txt", true)];
    let a = index_response(Some(entries1));
    let b = index_response(Some(entries2));
    assert_eq!(a.status, b.status);
    assert_eq!(a.content_type, b.content_type);
    assert_eq!(a.body, b.body);

    let t = player_tera();
    let p1 = player_response_from_render(rendered_player(&t, "clip.mp4"));
    let p2 = player_response_from_render(rendered_player(&t, "clip.mp4"));
    assert_eq!(p1.status, p2.status);
    assert_eq!(p1.content_type, p2.content_type);
    assert_eq!(p1.body, p2.body);

    let v1 = video_response("clip.mp4", Some(vec![1u8, 2]));
    let v2 = video_response("clip.mp4", Some(vec![1u8, 2]));
    assert_eq!(v1.status, v2.status);
    assert_eq!(v1.content_type, v2.content_type);
    assert_eq!(v1.body, v2.body);
}
