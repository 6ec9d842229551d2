use lexi_cut::job::{ExportJob, ExportProgressEvent, JobAction, Phase, Stage};
use lexi_cut::plan::{ExportError, ExportOptions, ExportSegment};

fn seg(start_ms: u64, end_ms: u64) -> ExportSegment {
    ExportSegment::new("/media/in.mp4".to_string(), start_ms, end_ms)
}

fn options(preset: &str, fade_ms: u64) -> ExportOptions {
    ExportOptions { preset: preset.to_string(), fade_ms }
}

fn event(phase: Phase, current: usize, n: usize, time: Option<u64>, total: u64, percent: Option<u64>) -> ExportProgressEvent {
    ExportProgressEvent {
        phase,
        current_segment: current,
        total_segments: n,
        current_time: time,
        total_time: Some(total),
        fps: None,
        percent,
    }
}

fn args_of(action: &JobAction) -> Vec<String> {
    match action {
        JobAction::Run { args, .. } => args.clone(),
        other => panic!("expected a run, got {:?}", other),
    }
}

fn strs(v: &[&str]) -> Vec<String> {
    v.iter().map(|s| s.to_string()).collect()
}

#[test]
fn fast_single_segment_job_runs_to_completion() {
    let mut job = ExportJob::new(vec![seg(0, 10_000)], "/out/final.mp4".to_string(), &options("fast", 167)).unwrap();
    let mut all: Vec<ExportProgressEvent> = Vec::new();

    let s = job.start();
    assert!(matches!(s.action, JobAction::CreateScratch));
    all.extend(s.events);

    let s = job.scratch_ready("/tmp/job".to_string());
    assert_eq!(
        args_of(&s.action),
        strs(&[
            "-y", "-ss", "0.000", "-i", "/media/in.mp4", "-t", "10.000", "-c", "copy",
            "-avoid_negative_ts", "make_zero", "/tmp/job/segment_0000.mp4",
        ])
    );
    all.extend(s.events);

    let s = job.process_exited(true, String::new());
    match &s.action {
        JobAction::WriteList { path, contents } => {
            assert_eq!(path, "/tmp/job/concat_list.txt");
            assert_eq!(contents, "file '/tmp/job/segment_0000.mp4'\n");
        }
        other => panic!("expected the concat list, got {:?}", other),
    }
    all.extend(s.events);

    let s = job.list_written();
    assert!(s.events.is_empty());
    assert_eq!(
        args_of(&s.action),
        strs(&["-y", "-f", "concat", "-safe", "0", "-i", "/tmp/job/concat_list.txt", "-c", "copy", "/tmp/job/final.mp4"])
    );

    // The output is made in the scratch directory and moved into place only on success.
    let s = job.process_exited(true, String::new());
    assert!(s.events.is_empty());
    match &s.action {
        JobAction::Publish { from, to } => {
            assert_eq!(from, "/tmp/job/final.mp4");
            assert_eq!(to, "/out/final.mp4");
        }
        other => panic!("expected the move into place, got {:?}", other),
    }

    let s = job.published();
    match &s.action {
        JobAction::Finish { result: Ok(path) } => assert_eq!(path, "/out/final.mp4"),
        other => panic!("expected success, got {:?}", other),
    }
    all.extend(s.events);

    assert_eq!(
        all,
        vec![
            event(Phase::Preparing, 0, 1, None, 10_000, Some(0)),
            event(Phase::Rendering, 1, 1, Some(0), 10_000, Some(0)),
            event(Phase::Finalizing, 1, 1, Some(10_000), 10_000, Some(9500)),
            event(Phase::Complete, 1, 1, Some(10_000), 10_000, Some(10_000)),
        ]
    );
    assert_eq!(job.stage, Stage::Done);
    let s = job.process_exited(true, String::new());
    assert!(s.events.is_empty());
    assert!(matches!(s.action, JobAction::Wait));
}

#[test]
fn empty_job_fails_before_any_event() {
    let r = ExportJob::new(Vec::new(), "/out/final.mp4".to_string(), &options("fast", 167));
    assert!(matches!(r, Err(ExportError::NoSegments)));
}

#[test]
fn failed_cut_reports_one_error_with_segment_index() {
    let mut job = ExportJob::new(vec![seg(0, 10_000)], "/out/final.mp4".to_string(), &options("fast", 167)).unwrap();
    job.start();
    job.scratch_ready("/tmp/job".to_string());
    let s = job.process_exited(false, "No such file".to_string());
    assert_eq!(s.events, vec![event(Phase::Error, 1, 1, None, 10_000, None)]);
    match &s.action {
        JobAction::Finish { result: Err(ExportError::Process { segment, message }) } => {
            assert_eq!(*segment, Some(0));
            assert_eq!(message, "FFmpeg segment extraction failed for segment 0: No such file");
        }
        other => panic!("expected a failure, got {:?}", other),
    }
    assert_eq!(job.stage, Stage::Done);
    let s = job.spawn_failed("late".to_string());
    assert!(s.events.is_empty());
}

#[test]
fn four_segment_transition_job() {
    let segments = vec![seg(0, 5000), seg(5000, 10_000), seg(10_000, 15_000), seg(15_000, 20_000)];
    let mut job = ExportJob::new(segments, "/out/f.mp4".to_string(), &options("standard", 500)).unwrap();
    assert_eq!(job.plan.total_ms, 18_500);
    assert_eq!(job.plan.offsets, vec![4500, 9000, 13_500]);
    let s = job.start();
    assert_eq!(s.events, vec![event(Phase::Preparing, 0, 4, None, 18_500, Some(0))]);
    let s = job.scratch_ready("/s".to_string());
    assert_eq!(
        s.events,
        vec![
            event(Phase::Rendering, 0, 4, Some(0), 18_500, Some(0)),
            event(Phase::Rendering, 1, 4, Some(0), 18_500, Some(0)),
        ]
    );
    assert_eq!(
        args_of(&s.action),
        strs(&[
            "-y", "-ss", "0.000", "-i", "/media/in.mp4", "-t", "5.000", "-c:v", "libx264", "-preset", "fast",
            "-crf", "16", "-c:a", "aac", "-b:a", "192k", "-r", "30", "/s/segment_0000.mp4",
        ])
    );
    let s = job.process_exited(true, String::new());
    // 5000 of 18500 ms cut, scaled to the first half: 13.51%.
    assert_eq!(s.events, vec![event(Phase::Rendering, 2, 4, Some(5000), 18_500, Some(1351))]);
    job.process_exited(true, String::new());
    job.process_exited(true, String::new());
    let s = job.process_exited(true, String::new());
    assert_eq!(s.events, vec![event(Phase::Finalizing, 4, 4, Some(18_500), 18_500, Some(5000))]);
    let args = args_of(&s.action);
    assert_eq!(args[0..5], strs(&["-y", "-progress", "pipe:2", "-i", "/s/segment_0000.mp4"])[..]);
    assert_eq!(args[10..13], strs(&["/s/segment_0003.mp4", "-filter_complex", "[0:v][1:v]xfade=transition=fade:duration=0.500:offset=4.500[v01];[v01][2:v]xfade=transition=fade:duration=0.500:offset=9.000[v02];[v02][3:v]xfade=transition=fade:duration=0.500:offset=13.500[vout];[0:a][1:a]acrossfade=d=0.500:c1=tri:c2=tri[a01];[a01][2:a]acrossfade=d=0.500:c1=tri:c2=tri[a02];[a02][3:a]acrossfade=d=0.500:c1=tri:c2=tri[aout]"])[..]);
    assert_eq!(args[args.len() - 3..], strs(&["-movflags", "+faststart", "/s/f.mp4"])[..]);
    assert!(args.contains(&"23".to_string()));

    let s = job.progress_line("frame=1 fps=30 time=00:00:09.25 bitrate=1k");
    assert_eq!(
        s.events,
        vec![ExportProgressEvent {
            phase: Phase::Finalizing,
            current_segment: 4,
            total_segments: 4,
            current_time: Some(9250),
            total_time: Some(18_500),
            fps: Some(30_000),
            percent: Some(7500),
        }]
    );
    // A time past the end stops at 99%.
    let s = job.progress_line("time=00:01:00.00 x");
    assert_eq!(s.events[0].percent, Some(9900));
    // An earlier time never lowers the percentage.
    let s = job.progress_line("time=00:00:01.00 x");
    assert_eq!(s.events[0].percent, Some(9900));
    let s = job.progress_line("Stream mapping:");
    assert!(s.events.is_empty());
    let s = job.process_exited(false, "x".to_string());
    assert_eq!(s.events, vec![event(Phase::Error, 4, 4, None, 18_500, None)]);
    match &s.action {
        JobAction::Finish { result: Err(ExportError::Process { segment, message }) } => {
            assert_eq!(*segment, None);
            assert_eq!(message, "FFmpeg xfade failed");
        }
        other => panic!("expected a failure, got {:?}", other),
    }
}

#[test]
fn single_segment_with_fades_encodes_directly() {
    let mut s0 = seg(1000, 3000);
    s0.audio_source_path = Some("/media/voice.wav".to_string());
    s0.audio_start_ms = Some(500);
    let mut job = ExportJob::new(vec![s0], "/out/o.mp4".to_string(), &options("high", 167)).unwrap();
    job.start();
    let s = job.scratch_ready("/s".to_string());
    assert_eq!(s.events, vec![event(Phase::Rendering, 1, 1, Some(0), 2000, Some(0))]);
    assert_eq!(
        args_of(&s.action),
        strs(&[
            "-y", "-progress", "pipe:2", "-ss", "1.000", "-i", "/media/in.mp4", "-ss", "0.500", "-i",
            "/media/voice.wav", "-t", "2.000", "-map", "0:v:0", "-map", "1:a:0", "-c:v", "libx264",
            "-preset", "medium", "-crf", "18", "-c:a", "aac", "-b:a", "192k", "-movflags", "+faststart",
            "/s/o.mp4",
        ])
    );
    assert!(matches!(s.action, JobAction::Run { watch_progress: true, .. }));
    let s = job.progress_line("time=00:00:01.00 fps=25 ");
    assert_eq!(s.events[0].percent, Some(5000));
    assert_eq!(s.events[0].phase, Phase::Rendering);
    let s = job.process_exited(false, String::new());
    assert_eq!(s.events, vec![event(Phase::Error, 1, 1, None, 2000, None)]);
    match &s.action {
        JobAction::Finish { result: Err(ExportError::Process { segment, message }) } => {
            assert_eq!(*segment, Some(0));
            assert_eq!(message, "FFmpeg encoding failed for segment 0");
        }
        other => panic!("expected a failure, got {:?}", other),
    }
}

#[test]
fn separate_audio_is_clamped_to_the_shorter_range() {
    let mut s0 = seg(2000, 6000);
    s0.audio_source_path = Some("/media/b.mp4".to_string());
    s0.audio_start_ms = Some(10_000);
    s0.audio_end_ms = Some(12_500);
    let mut job = ExportJob::new(vec![s0], "/o.mp4".to_string(), &options("", 167)).unwrap();
    job.start();
    let s = job.scratch_ready("/s".to_string());
    assert_eq!(
        args_of(&s.action),
        strs(&[
            "-y", "-ss", "2.000", "-i", "/media/in.mp4", "-ss", "10.000", "-i", "/media/b.mp4", "-t", "2.500",
            "-map", "0:v:0", "-map", "1:a:0", "-c", "copy", "-avoid_negative_ts", "make_zero", "/s/segment_0000.mp4",
        ])
    );
}

#[test]
fn fast_multi_segment_percentages_never_fall() {
    let segments = vec![seg(0, 9000), seg(0, 900), seg(0, 100)];
    let mut job = ExportJob::new(segments, "/o.mp4".to_string(), &options("fast", 167)).unwrap();
    let mut percents: Vec<u64> = Vec::new();
    let mut collect = |events: Vec<ExportProgressEvent>| {
        for e in events {
            if let Some(p) = e.percent {
                percents.push(p);
            }
        }
    };
    collect(job.start().events);
    collect(job.scratch_ready("/s".to_string()).events);
    collect(job.process_exited(true, String::new()).events);
    collect(job.process_exited(true, String::new()).events);
    let s = job.process_exited(true, String::new());
    assert_eq!(s.events[0].phase, Phase::Finalizing);
    collect(s.events);
    assert_eq!(percents, vec![0, 0, 9000, 9900, 9900]);
}

#[test]
fn scratch_and_list_failures_end_the_job() {
    let mut job = ExportJob::new(vec![seg(0, 1000)], "/o.mp4".to_string(), &options("fast", 167)).unwrap();
    job.start();
    let s = job.io_failed("Failed to create temp dir: denied".to_string());
    assert_eq!(s.events, vec![event(Phase::Error, 0, 1, None, 1000, None)]);
    assert!(matches!(s.action, JobAction::Finish { result: Err(ExportError::Io { .. }) }));

    let mut job = ExportJob::new(vec![seg(0, 1000)], "/o.mp4".to_string(), &options("fast", 167)).unwrap();
    job.start();
    let s = job.scratch_ready("/s".to_string());
    let s2 = job.spawn_failed("Failed to run ffmpeg: not found".to_string());
    assert_eq!(s.events.len(), 1);
    assert_eq!(s2.events, vec![event(Phase::Error, 1, 1, None, 1000, None)]);
    match &s2.action {
        JobAction::Finish { result: Err(ExportError::Spawn { message }) } => {
            assert_eq!(message, "Failed to run ffmpeg: not found")
        }
        other => panic!("expected a failure, got {:?}", other),
    }
}

#[test]
fn concat_failure_carries_diagnostics() {
    let mut job = ExportJob::new(vec![seg(0, 1000), seg(0, 1000)], "/o.mp4".to_string(), &options("fast", 167)).unwrap();
    job.start();
    job.scratch_ready("/s".to_string());
    job.process_exited(true, String::new());
    let s = job.process_exited(true, String::new());
    match &s.action {
        JobAction::WriteList { contents, .. } => {
            assert_eq!(contents, "file '/s/segment_0000.mp4'\nfile '/s/segment_0001.mp4'\n")
        }
        other => panic!("expected the concat list, got {:?}", other),
    }
    job.list_written();
    let s = job.process_exited(false, "bad list".to_string());
    assert_eq!(s.events, vec![event(Phase::Error, 2, 2, None, 2000, None)]);
    match &s.action {
        JobAction::Finish { result: Err(ExportError::Process { segment: None, message }) } => {
            assert_eq!(message, "FFmpeg concat failed: bad list")
        }
        other => panic!("expected a failure, got {:?}", other),
    }
}

#[test]
fn transition_cut_failure_message() {
    let mut job = ExportJob::new(vec![seg(0, 1000), seg(0, 1000)], "/o.mp4".to_string(), &options("standard", 100)).unwrap();
    job.start();
    job.scratch_ready("/s".to_string());
    let s = job.process_exited(true, String::new());
    assert_eq!(s.events[0].current_segment, 2);
    let s = job.process_exited(false, "boom".to_string());
    assert_eq!(s.events, vec![event(Phase::Error, 2, 2, None, 1900, None)]);
    match &s.action {
        JobAction::Finish { result: Err(ExportError::Process { segment, message }) } => {
            assert_eq!(*segment, Some(1));
            assert_eq!(message, "FFmpeg segment encoding failed for segment 1: boom");
        }
        other => panic!("expected a failure, got {:?}", other),
    }
}

#[test]
fn phase_names() {
    assert_eq!(Phase::Preparing.as_str(), "preparing");
    assert_eq!(Phase::Rendering.as_str(), "rendering");
    assert_eq!(Phase::Finalizing.as_str(), "finalizing");
    assert_eq!(Phase::Complete.as_str(), "complete");
    assert_eq!(Phase::Error.as_str(), "error");
}

#[test]
fn failed_move_into_place_is_an_error() {
    let mut job = ExportJob::new(vec![seg(0, 1000)], "/out/o.mp4".to_string(), &options("high", 167)).unwrap();
    job.start();
    job.scratch_ready("/s".to_string());
    let s = job.process_exited(true, String::new());
    assert!(matches!(s.action, JobAction::Publish { .. }));
    let s = job.io_failed("Failed to move output: cross-device".to_string());
    assert_eq!(s.events, vec![event(Phase::Error, 1, 1, None, 1000, None)]);
    assert!(matches!(s.action, JobAction::Finish { result: Err(ExportError::Io { .. }) }));
}

#[test]
fn staged_output_keeps_the_file_name() {
    assert_eq!(lexi_cut::job::staged_path(&"/s".to_string(), &"/a/b/out.mov".to_string()), "/s/out.mov");
    assert_eq!(lexi_cut::job::staged_path(&"/s".to_string(), &"plain.mp4".to_string()), "/s/plain.mp4");
}

#[test]
fn refused_non_empty_job_reports_one_error() {
    let segments = vec![seg(0, 10_000), seg(0, 100)];
    let r = ExportJob::new(segments.clone(), "/o.mp4".to_string(), &options("standard", 167));
    let e = match r {
        Err(e) => e,
        Ok(_) => panic!("a fade longer than a segment must be refused"),
    };
    assert!(matches!(e, ExportError::FadeTooLong { index: 1 }));
    let s = ExportJob::refusal(&segments, e);
    assert_eq!(
        s.events,
        vec![ExportProgressEvent {
            phase: Phase::Error,
            current_segment: 0,
            total_segments: 2,
            current_time: None,
            total_time: None,
            fps: None,
            percent: None,
        }]
    );
    assert!(matches!(s.action, JobAction::Finish { result: Err(ExportError::FadeTooLong { index: 1 }) }));
}

#[test]
fn refused_empty_job_reports_nothing() {
    let s = ExportJob::refusal(&Vec::new(), ExportError::NoSegments);
    assert!(s.events.is_empty());
    assert!(matches!(s.action, JobAction::Finish { result: Err(ExportError::NoSegments) }));
}

#[test]
fn intermediate_quality_beats_both_final_qualities() {
    for preset in ["standard", "high"] {
        let mut job = ExportJob::new(vec![seg(0, 1000), seg(0, 1000)], "/o.mp4".to_string(), &options(preset, 100)).unwrap();
        job.start();
        let cut = args_of(&job.scratch_ready("/s".to_string()).action);
        let crf_at = cut.iter().position(|a| a == "-crf").unwrap();
        job.process_exited(true, String::new());
        let join = args_of(&job.process_exited(true, String::new()).action);
        let final_at = join.iter().position(|a| a == "-crf").unwrap();
        let intermediate: u32 = cut[crf_at + 1].parse().unwrap();
        let last: u32 = join[final_at + 1].parse().unwrap();
        assert!(intermediate < last, "{} against {}", intermediate, last);
    }
}
