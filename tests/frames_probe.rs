use lexi_cut::frames::{calculate_target_timestamps, sort_times, subsample_timestamps};
use lexi_cut::media::encode_base64;
use lexi_cut::probe::{
    dimensions_probe_command, duration_probe_command, frame_command, frame_file_name, keyframe_probe_command,
    keyframe_time, keyframe_times, parse_dimensions, parse_duration_ms, DimensionsError,
};

fn strs(v: &[&str]) -> Vec<String> {
    v.iter().map(|s| s.to_string()).collect()
}

#[test]
fn keyframes_close_together_are_kept_once() {
    assert_eq!(calculate_target_timestamps(&vec![0, 500, 2000, 3500], 4000), vec![0, 2000, 3500]);
}

#[test]
fn long_gaps_are_filled_each_second() {
    assert_eq!(
        calculate_target_timestamps(&vec![0, 8000], 9000),
        vec![0, 1000, 2000, 3000, 4000, 5000, 6000, 8000]
    );
}

#[test]
fn tail_is_filled_up_to_the_end() {
    assert_eq!(
        calculate_target_timestamps(&vec![0], 7500),
        vec![0, 1000, 2000, 3000, 4000, 5000, 6000, 7000]
    );
    assert_eq!(calculate_target_timestamps(&vec![0], 3000), vec![0, 2500]);
}

#[test]
fn late_first_keyframe_gets_a_start() {
    assert_eq!(calculate_target_timestamps(&vec![1500], 2000), vec![0, 1500]);
    assert_eq!(calculate_target_timestamps(&vec![], 1500), vec![0]);
}

#[test]
fn unordered_keyframes_come_out_sorted() {
    // A keyframe earlier than the one before it restarts the tail fill from there.
    assert_eq!(
        calculate_target_timestamps(&vec![0, 5000, 2000], 9000),
        vec![0, 3000, 4000, 5000, 5000, 6000, 7000, 8500]
    );
    assert_eq!(sort_times(vec![5, 1, 4, 1, 3]), vec![1, 1, 3, 4, 5]);
}

#[test]
fn subsampling_keeps_ends_and_spreads_evenly() {
    let ts: Vec<u64> = (0..10).map(|i| i * 1000).collect();
    assert_eq!(subsample_timestamps(&ts, 4), vec![0, 3000, 6000, 9000]);
    assert_eq!(subsample_timestamps(&ts, 3), vec![0, 5000, 9000]);
    assert_eq!(subsample_timestamps(&ts, 1), vec![0]);
    assert_eq!(subsample_timestamps(&ts, 0), Vec::<u64>::new());
    assert_eq!(subsample_timestamps(&ts, 10), ts);
    // 1 * 9 / 5 = 1.8 rounds to 2; 2 * 9 / 5 = 3.6 to 4; 3 * 9 / 5 = 5.4 to 5; 4 * 9 / 5 = 7.2 to 7.
    assert_eq!(subsample_timestamps(&ts, 6), vec![0, 2000, 4000, 5000, 7000, 9000]);
}

#[test]
fn subsampling_rounds_halves_up() {
    let ts: Vec<u64> = (0..4).collect();
    // 1 * 3 / 2 = 1.5 rounds to 2.
    assert_eq!(subsample_timestamps(&ts, 3), vec![0, 2, 3]);
}

#[test]
fn duration_output() {
    assert_eq!(parse_duration_ms("12.345678\n"), Some(12_345));
    assert_eq!(parse_duration_ms("  60 "), Some(60_000));
    assert_eq!(parse_duration_ms("N/A\n"), None);
    assert_eq!(parse_duration_ms(""), None);
}

#[test]
fn dimensions_output() {
    assert_eq!(parse_dimensions("1920x1080\n"), Ok((1920, 1080)));
    assert_eq!(parse_dimensions("1920"), Err(DimensionsError::Format));
    assert_eq!(parse_dimensions("1x2x3"), Err(DimensionsError::Format));
    assert_eq!(parse_dimensions("wx1080"), Err(DimensionsError::Width));
    assert_eq!(parse_dimensions("1920x4294967296"), Err(DimensionsError::Height));
}

#[test]
fn keyframe_lines() {
    assert_eq!(keyframe_time("1.500000,I"), Some(1500));
    assert_eq!(keyframe_time(" 2.0 , I ,extra"), Some(2000));
    assert_eq!(keyframe_time("1.5,P"), None);
    assert_eq!(keyframe_time("N/A,I"), None);
    assert_eq!(keyframe_time("I"), None);
    let lines = strs(&["0.000000,I", "0.040000,P", "4.000000,I"]);
    assert_eq!(keyframe_times(&lines), vec![0, 4000]);
    let lines = strs(&["2.000000,I", "0.040000,B"]);
    assert_eq!(keyframe_times(&lines), vec![0, 2000]);
    assert_eq!(keyframe_times(&Vec::new()), vec![0]);
}

#[test]
fn probe_and_frame_commands() {
    assert_eq!(
        duration_probe_command("/v.mp4"),
        strs(&["-v", "error", "-show_entries", "format=duration", "-of", "default=noprint_wrappers=1:nokey=1", "/v.mp4"])
    );
    assert_eq!(keyframe_probe_command("/v.mp4")[5], "frame=pts_time,pict_type");
    assert_eq!(dimensions_probe_command("/v.mp4")[7], "csv=s=x:p=0");
    assert_eq!(
        frame_command("/v.mp4", 2500, "/t/frame_0003.jpg"),
        strs(&["-y", "-ss", "2.500", "-i", "/v.mp4", "-vframes", "1", "-q:v", "2", "/t/frame_0003.jpg"])
    );
    assert_eq!(frame_file_name(3), "frame_0003.jpg");
    assert_eq!(frame_file_name(12345), "frame_12345.jpg");
}

#[test]
fn base64_of_bytes() {
    assert_eq!(encode_base64(b"Man"), "TWFu");
    assert_eq!(encode_base64(b"Ma"), "TWE=");
}
