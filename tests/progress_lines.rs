use lexi_cut::progress::parse_ffmpeg_progress;
use lexi_cut::text::{decimal_string, seconds_string};

#[test]
fn reads_time_and_fps() {
    let r = parse_ffmpeg_progress("frame= 1874 fps=29.97 q=28.0 size=1024kB time=00:01:02.50 bitrate=2097.2kbits/s");
    assert_eq!(r, Some((62_500, Some(29_970))));
}

#[test]
fn time_before_fps() {
    let r = parse_ffmpeg_progress("x time=00:01:02.50 y fps=29.97 z");
    assert_eq!(r, Some((62_500, Some(29_970))));
}

#[test]
fn line_without_time_is_ignored() {
    assert_eq!(parse_ffmpeg_progress("no time here"), None);
    assert_eq!(parse_ffmpeg_progress(""), None);
}

#[test]
fn time_needs_three_fields_and_a_following_space() {
    assert_eq!(parse_ffmpeg_progress("time=01:02.50 x"), None);
    assert_eq!(parse_ffmpeg_progress("out_time=00:00:04.000000"), None);
    assert_eq!(parse_ffmpeg_progress("time=1:2:3:4 x"), None);
}

#[test]
fn hours_count() {
    assert_eq!(parse_ffmpeg_progress("time=02:00:01.25 "), Some((7_201_250, None)));
}

#[test]
fn malformed_field_counts_as_zero() {
    assert_eq!(parse_ffmpeg_progress("time=00:xx:05.5 "), Some((5_500, None)));
    assert_eq!(parse_ffmpeg_progress("time=N/A:00:01 "), Some((1_000, None)));
}

#[test]
fn malformed_fps_is_absent() {
    assert_eq!(parse_ffmpeg_progress("fps=abc time=00:00:01.000 "), Some((1_000, None)));
    assert_eq!(parse_ffmpeg_progress("fps=60 time=00:00:01.000 "), Some((1_000, Some(60_000))));
}

#[test]
fn extra_decimals_are_dropped() {
    assert_eq!(parse_ffmpeg_progress("time=00:00:01.23456 "), Some((1_234, None)));
}

#[test]
fn seconds_have_three_decimals() {
    assert_eq!(seconds_string(0), "0.000");
    assert_eq!(seconds_string(4500), "4.500");
    assert_eq!(seconds_string(62_007), "62.007");
    assert_eq!(decimal_string(0), "0");
    assert_eq!(decimal_string(18_446_744_073_709_551_615), "18446744073709551615");
}
