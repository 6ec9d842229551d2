use lexi_cut::media::{
    clip_command, compress_command, jpeg_data_uri, needs_compression, thumbnail_command, video_bitrate,
};
use lexi_cut::records::MediaUploadResult;
use lexi_cut::server::{
    extension_of, get_mime_type, get_video_url, mime_for_extension, parse_range, video_id, video_url,
    VideoServerPort, VideoServerState,
};

fn strs(v: &[&str]) -> Vec<String> {
    v.iter().map(|s| s.to_string()).collect()
}

#[test]
fn range_with_both_ends() {
    assert_eq!(parse_range("bytes=0-499", 1000), Some((0, 499)));
    assert_eq!(parse_range("bytes=+10-+20", 1000), Some((10, 20)));
}

#[test]
fn open_range_runs_to_the_last_byte() {
    assert_eq!(parse_range("bytes=500-", 1000), Some((500, 999)));
    assert_eq!(parse_range("bytes=0-", 0), None);
}

#[test]
fn bad_ranges_are_refused() {
    assert_eq!(parse_range("bytes=500-1000", 1000), None);
    assert_eq!(parse_range("bytes=600-500", 1000), None);
    assert_eq!(parse_range("items=0-1", 1000), None);
    assert_eq!(parse_range("bytes=-5", 1000), None);
    assert_eq!(parse_range("bytes=1-2-3", 1000), None);
    assert_eq!(parse_range("bytes=a-3", 1000), None);
    assert_eq!(parse_range("bytes=0-99999999999999999999", u64::MAX), None);
    assert_eq!(parse_range("bytes=18446744073709551614-", u64::MAX), Some((u64::MAX - 1, u64::MAX - 1)));
}

#[test]
fn mime_types_by_extension() {
    assert_eq!(get_mime_type("/a/b/clip.mp4"), "video/mp4");
    assert_eq!(get_mime_type("/a/b/clip.MOV"), "video/quicktime");
    assert_eq!(get_mime_type("x.tar.WebM"), "video/webm");
    assert_eq!(get_mime_type("movie.mkv"), "video/x-matroska");
    assert_eq!(get_mime_type("old.avi"), "video/x-msvideo");
    assert_eq!(get_mime_type("noext"), "application/octet-stream");
    assert_eq!(get_mime_type("mp4"), "video/mp4");
    assert_eq!(mime_for_extension("MP4"), "application/octet-stream");
    assert_eq!(extension_of("a.b.c"), "c");
    assert_eq!(extension_of("trailing."), "");
}

#[test]
fn video_ids_come_from_the_path_digest() {
    assert_eq!(video_id(""), "e3b0c44298fc1c14");
    assert_eq!(video_id("/videos/clip.MP4"), "37a6665a9c9259be");
    assert_eq!(video_url(8080, &"abc".to_string()), "http://127.0.0.1:8080/video/abc");
}

#[test]
fn registered_videos_can_be_found() {
    let mut state = VideoServerState::new();
    let port = VideoServerPort(4321);
    let url = get_video_url("/videos/clip.MP4", &mut state, &port);
    assert_eq!(url, "http://127.0.0.1:4321/video/37a6665a9c9259be");
    assert_eq!(state.lookup("37a6665a9c9259be"), Some("/videos/clip.MP4".to_string()));
    assert_eq!(state.lookup("0000000000000000"), None);
    state.register("37a6665a9c9259be".to_string(), "/other.mp4".to_string());
    assert_eq!(state.lookup("37a6665a9c9259be"), Some("/other.mp4".to_string()));
}

#[test]
fn thumbnails_seek_unless_at_zero() {
    assert_eq!(
        thumbnail_command("/v.mp4", "/t.jpg", "1"),
        strs(&["-ss", "1", "-i", "/v.mp4", "-frames:v", "1", "-vf", "scale=320:-1", "-q:v", "5", "-y", "/t.jpg"])
    );
    assert_eq!(
        thumbnail_command("/v.mp4", "/t.jpg", "0"),
        strs(&["-i", "/v.mp4", "-frames:v", "1", "-vf", "scale=320:-1", "-q:v", "5", "-y", "/t.jpg"])
    );
}

#[test]
fn jpeg_bytes_become_a_data_uri() {
    assert_eq!(jpeg_data_uri(&[0xff, 0xd8, 0xff]), "data:image/jpeg;base64,/9j/");
    assert_eq!(jpeg_data_uri(&[0xff, 0xd8]), "data:image/jpeg;base64,/9g=");
    assert_eq!(jpeg_data_uri(&[]), "data:image/jpeg;base64,");
}

#[test]
fn preview_clip_defaults_to_five_seconds() {
    let v = clip_command("/v.mp4", 0, "/c.mp4");
    assert_eq!(v[6], "5.000");
    assert_eq!(v[4], "/v.mp4");
    assert_eq!(v[19], "/c.mp4");
    assert_eq!(clip_command("/v.mp4", 12_345, "/c.mp4")[6], "12.345");
}

#[test]
fn compression_bitrates() {
    assert!(!needs_compression(500 * 1024 * 1024));
    assert!(needs_compression(500 * 1024 * 1024 + 1));
    // 229376 kbit over 60 s is 3822 kbit/s, less 96 for audio.
    assert_eq!(video_bitrate(60_000), 3726);
    assert_eq!(video_bitrate(3_600_000), 500);
    assert_eq!(video_bitrate(0), u32::MAX - 96);
    assert_eq!(
        compress_command("/in.mp4", "/in_compressed.mp4", 3726),
        strs(&[
            "-y", "-i", "/in.mp4", "-c:v", "libx264", "-preset", "fast", "-b:v", "3726k", "-maxrate", "7452k",
            "-bufsize", "14904k", "-c:a", "aac", "-b:a", "96k", "-movflags", "+faststart", "/in_compressed.mp4",
        ])
    );
}

#[test]
fn upload_result_is_an_mp4() {
    let r = MediaUploadResult::video("https://cdn/x.mp4".to_string(), 42);
    assert_eq!(r.mime_type, "video/mp4");
    assert_eq!(r.size, 42);
    assert_eq!(r.url, "https://cdn/x.mp4");
}

#[test]
fn id_takes_the_first_sixteen_hex_digits() {
    let digest: Vec<u8> = vec![0x00, 0x1f, 0xa0, 0xff, 0x12, 0x34, 0x56, 0x78, 0x9a];
    assert_eq!(lexi_cut::server::id_from_digest(&digest), "001fa0ff12345678");
}

#[test]
fn data_uri_from_encoded_text() {
    assert_eq!(lexi_cut::media::jpeg_data_uri_of("/9j/"), "data:image/jpeg;base64,/9j/");
}

#[test]
fn registering_again_replaces_without_growing() {
    let mut state = VideoServerState::new();
    state.register("a".to_string(), "/1.mp4".to_string());
    state.register("b".to_string(), "/2.mp4".to_string());
    state.register("a".to_string(), "/3.mp4".to_string());
    assert_eq!(state.entries.len(), 2);
    assert_eq!(state.lookup("a"), Some("/3.mp4".to_string()));
    assert_eq!(state.lookup("b"), Some("/2.mp4".to_string()));
}

#[test]
fn thumbnail_attempts() {
    assert_eq!(lexi_cut::media::thumbnail_time(0), Some("1"));
    assert_eq!(lexi_cut::media::thumbnail_time(1), Some("0"));
    assert_eq!(lexi_cut::media::thumbnail_time(2), None);
}
