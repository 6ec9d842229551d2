use lexi_cut::graph::build_filter_graph;
use lexi_cut::plan::{plan, ExportError, ExportMode, ExportOptions, ExportSegment, DEFAULT_FADE_MS};

fn seg(start_ms: u64, end_ms: u64) -> ExportSegment {
    ExportSegment::new("/media/source.mp4".to_string(), start_ms, end_ms)
}

fn options(preset: &str, fade_ms: u64) -> ExportOptions {
    ExportOptions { preset: preset.to_string(), fade_ms }
}

#[test]
fn fast_mode_iff_preset_empty_or_fast() {
    let segments = vec![seg(0, 4000), seg(1000, 3000)];
    for preset in ["", "fast"] {
        let p = plan(&segments, &options(preset, 500)).unwrap();
        assert_eq!(p.mode, ExportMode::Fast);
    }
    for preset in ["standard", "high", "FAST", "fast "] {
        let p = plan(&segments, &options(preset, 500)).unwrap();
        assert_eq!(p.mode, ExportMode::Transition);
    }
}

#[test]
fn high_preset_is_high_quality() {
    let segments = vec![seg(0, 4000)];
    assert!(plan(&segments, &options("high", 500)).unwrap().high_quality);
    assert!(!plan(&segments, &options("standard", 500)).unwrap().high_quality);
}

#[test]
fn total_duration_fast_is_plain_sum() {
    let segments = vec![seg(0, 4000), seg(1000, 3000), seg(500, 1500)];
    let p = plan(&segments, &options("fast", 500)).unwrap();
    assert_eq!(p.total_ms, 7000);
    assert_eq!(p.durations, vec![4000, 2000, 1000]);
    assert!(p.offsets.is_empty());
}

#[test]
fn total_duration_transition_subtracts_overlaps() {
    let segments = vec![seg(0, 4000), seg(1000, 3000), seg(500, 1500)];
    let p = plan(&segments, &options("standard", 500)).unwrap();
    assert_eq!(p.total_ms, 7000 - 500 * 2);
}

#[test]
fn three_segment_offsets_follow_the_chain() {
    let segments = vec![seg(0, 3000), seg(0, 2500), seg(0, 4000)];
    let p = plan(&segments, &options("standard", 500)).unwrap();
    assert_eq!(p.offsets.len(), 2);
    assert_eq!(p.offsets[0], 3000 - 500);
    assert_eq!(p.offsets[1], p.offsets[0] + 2500 - 500);
}

#[test]
fn four_equal_segments_with_half_second_fades() {
    let segments = vec![seg(0, 5000), seg(5000, 10000), seg(10000, 15000), seg(15000, 20000)];
    let p = plan(&segments, &options("standard", 500)).unwrap();
    assert_eq!(p.mode, ExportMode::Transition);
    assert_eq!(p.total_ms, 18500);
    assert_eq!(p.offsets, vec![4500, 9000, 13500]);
}

#[test]
fn single_segment_transition_has_no_offsets() {
    let p = plan(&vec![seg(2000, 7000)], &options("high", 500)).unwrap();
    assert_eq!(p.mode, ExportMode::Transition);
    assert_eq!(p.total_ms, 5000);
    assert!(p.offsets.is_empty());
}

#[test]
fn empty_segment_list_is_rejected() {
    let r = plan(&Vec::new(), &options("fast", 500));
    assert!(matches!(r, Err(ExportError::NoSegments)));
}

#[test]
fn segment_without_length_is_rejected() {
    let r = plan(&vec![seg(0, 1000), seg(3000, 3000), seg(5, 1)], &options("fast", 500));
    assert!(matches!(r, Err(ExportError::EmptySegment { index: 1 })));
}

#[test]
fn fade_longer_than_a_segment_is_rejected() {
    let r = plan(&vec![seg(0, 5000), seg(0, 400), seg(0, 300)], &options("standard", 500));
    assert!(matches!(r, Err(ExportError::FadeTooLong { index: 1 })));
    // In stream-copy mode the fade does not matter.
    assert!(plan(&vec![seg(0, 5000), seg(0, 400)], &options("fast", 500)).is_ok());
}

#[test]
fn overlong_timeline_is_rejected() {
    let r = plan(&vec![seg(0, 600_000_000_000), seg(0, 600_000_000_000)], &options("fast", 0));
    assert!(matches!(r, Err(ExportError::TimelineTooLong)));
}

#[test]
fn default_options() {
    let o = ExportOptions::default();
    assert_eq!(o.preset, "");
    assert_eq!(o.fade_ms, DEFAULT_FADE_MS);
    assert_eq!(lexi_cut::plan::default_fade_duration(), 167);
}

#[test]
fn filter_graph_for_two_clips() {
    let g = build_filter_graph(&vec![4500], 500);
    assert_eq!(
        g,
        "[0:v][1:v]xfade=transition=fade:duration=0.500:offset=4.500[vout];\
         [0:a][1:a]acrossfade=d=0.500:c1=tri:c2=tri[aout]"
    );
}

#[test]
fn filter_graph_for_four_clips() {
    let g = build_filter_graph(&vec![4500, 9000, 13500], 167);
    assert_eq!(
        g,
        "[0:v][1:v]xfade=transition=fade:duration=0.167:offset=4.500[v01];\
         [v01][2:v]xfade=transition=fade:duration=0.167:offset=9.000[v02];\
         [v02][3:v]xfade=transition=fade:duration=0.167:offset=13.500[vout];\
         [0:a][1:a]acrossfade=d=0.167:c1=tri:c2=tri[a01];\
         [a01][2:a]acrossfade=d=0.167:c1=tri:c2=tri[a02];\
         [a02][3:a]acrossfade=d=0.167:c1=tri:c2=tri[aout]"
    );
}

#[test]
fn configuration_error_messages() {
    assert_eq!(ExportError::NoSegments.message(), "No segments to export");
    assert_eq!(ExportError::EmptySegment { index: 3 }.message(), "Segment 3 does not end after it starts");
    assert_eq!(ExportError::FadeTooLong { index: 0 }.message(), "Segment 0 is not longer than the fade");
    assert_eq!(ExportError::TimelineTooLong.message(), "Segments are too long to export");
    assert_eq!(ExportError::Io { message: "disk full".to_string() }.message(), "disk full");
}
