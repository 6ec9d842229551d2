//! The export job as a state machine.
//!
//! The job decides; its driver acts. Each handler takes what just happened
//! (the scratch area exists, the encoder exited, a line of progress came in)
//! and returns the progress events to deliver, in order, and the next thing to
//! do. The phases run `preparing -> rendering -> finalizing -> complete`, or
//! end in `error`; after either end the job answers nothing.
//!
//! The output is made in the scratch directory and moved to the output path
//! only once it is whole, so a failed job leaves nothing partial there.
//!
//! Times are in milliseconds, frame rates in thousandths, percentages in
//! hundredths of a percent. Every percentage a job reports is at least the one
//! before it.
use vstd::prelude::*;
use crate::command::{
    assembly_args, assembly_command, concat_args, concat_command, concat_list, concat_list_text,
    copy_cut_args, copy_cut_command, intermediate_args, intermediate_command,
    single_encode_args, single_encode_command, texts,
};
use crate::graph::{build_filter_graph, filter_graph};
use crate::plan::{
    duration, plan, plan_error, sum_durations, sum_prefix, ExportError, ExportMode, ExportOptions,
    ExportPlan, ExportSegment, MAX_TIMELINE_MS,
};
use crate::progress::{parse_ffmpeg_progress, progress_of};
use crate::text::{decimal_text, padded_text, push_decimal, push_padded};
use vstd::arithmetic::div_mod::{lemma_div_by_multiple, lemma_div_is_ordered};

verus! {

#[derive(Clone, Copy, Debug, PartialEq, Eq, Structural)]
pub enum Phase {
    Preparing,
    Rendering,
    Finalizing,
    Complete,
    Error,
}

impl Phase {
    /// The phase's name as the caller sees it.
    pub fn as_str(&self) -> (r: &'static str)
        ensures
            *self == Phase::Preparing ==> r@ == "preparing"@,
            *self == Phase::Rendering ==> r@ == "rendering"@,
            *self == Phase::Finalizing ==> r@ == "finalizing"@,
            *self == Phase::Complete ==> r@ == "complete"@,
            *self == Phase::Error ==> r@ == "error"@,
    {
        match self {
            Phase::Preparing => "preparing",
            Phase::Rendering => "rendering",
            Phase::Finalizing => "finalizing",
            Phase::Complete => "complete",
            Phase::Error => "error",
        }
    }
}

/// One progress report. `current_segment` counts from 1; 0 means none yet.
#[derive(Clone, Copy, Debug, PartialEq, Eq, Structural)]
pub struct ExportProgressEvent {
    pub phase: Phase,
    pub current_segment: usize,
    pub total_segments: usize,
    /// Milliseconds of output done.
    pub current_time: Option<u64>,
    /// Milliseconds of output in all.
    pub total_time: Option<u64>,
    /// Frames per second, in thousandths.
    pub fps: Option<u64>,
    /// Hundredths of a percent, from 0 to 10000.
    pub percent: Option<u64>,
}

pub open spec fn ev(
    phase: Phase,
    current: usize,
    n: usize,
    time: Option<u64>,
    total: u64,
    fps: Option<u64>,
    percent: Option<u64>,
) -> ExportProgressEvent {
    ExportProgressEvent {
        phase,
        current_segment: current,
        total_segments: n,
        current_time: time,
        total_time: Some(total),
        fps,
        percent,
    }
}

/// What the driver does next.
#[derive(Debug)]
pub enum JobAction {
    /// Create a fresh scratch directory and report it with `scratch_ready`,
    /// or report the failure with `io_failed`.
    CreateScratch,
    /// Run the encoder with `args`. With `watch_progress`, hand each line of its
    /// diagnostic stream to `progress_line` while it runs. Then report its exit
    /// with `process_exited`, or `spawn_failed` if it could not start.
    Run { args: Vec<String>, watch_progress: bool },
    /// Write `contents` to the file `path`, then call `list_written`, or `io_failed`.
    WriteList { path: String, contents: String },
    /// Move the finished file `from` to `to`, replacing what is there, then
    /// call `published`, or `io_failed`.
    Publish { from: String, to: String },
    /// Nothing to do: deliver the next event.
    Wait,
    /// The job is over: remove the scratch directory and return `result`.
    Finish { result: Result<String, ExportError> },
}

/// What a handler returns: events to deliver in order, then an action.
#[derive(Debug)]
pub struct Step {
    pub events: Vec<ExportProgressEvent>,
    pub action: JobAction,
}

#[derive(Clone, Copy, Debug, PartialEq, Eq, Structural)]
pub enum Stage {
    /// Planned; `start` not called yet.
    Created,
    /// Waiting for the scratch directory.
    AwaitScratch,
    /// Cutting or re-encoding segment `index`.
    Cutting { index: usize },
    /// Waiting for the concat list to be written.
    Listing,
    /// Concatenating the cuts.
    Concatenating,
    /// Encoding a lone segment with a re-encoding preset.
    Encoding,
    /// Running the cross-fade chain over all intermediate clips.
    Joining,
    /// Waiting for the finished file to be moved to the output path.
    Publishing,
    /// Finished, with success or an error.
    Done,
}

/// The path of intermediate clip `i` in `dir`.
pub open spec fn segment_file(dir: Seq<char>, i: nat) -> Seq<char> {
    dir + "/segment_"@ + padded_text(i, 4) + ".mp4"@
}

/// Where in `dir` the output is made before it is moved to `output`: under
/// the same file name, so that its extension still names its format.
pub open spec fn staged_file(dir: Seq<char>, output: Seq<char>) -> Seq<char> {
    dir + "/"@ + crate::scan::after_last(output, '/')
}

/// The path of the concat list in `dir`.
pub open spec fn list_file(dir: Seq<char>) -> Seq<char> {
    dir + "/concat_list.txt"@
}

/// The paths of the first `k` intermediate clips.
pub open spec fn segment_files(dir: Seq<char>, k: nat) -> Seq<Seq<char>> {
    Seq::new(k, |i: int| segment_file(dir, i as nat))
}

/// Share of the job done once `acc` milliseconds of segments are cut: all of
/// it in stream-copy mode, the first half in a cross-fade chain.
pub open spec fn cut_percent(mode: ExportMode, acc: nat, total: nat) -> nat {
    let span: nat = if mode == ExportMode::Fast {
        10000
    } else {
        5000
    };
    let p = acc * span / total;
    if p < span {
        p
    } else {
        span
    }
}

pub open spec fn max(a: nat, b: nat) -> nat {
    if a < b {
        b
    } else {
        a
    }
}

/// Every reported percentage lies between `lo` and `hi` and none is below the
/// one reported before it.
pub open spec fn rising(events: Seq<ExportProgressEvent>, lo: nat, hi: nat) -> bool {
    &&& forall|k: int|
        0 <= k < events.len() && (#[trigger] events[k]).percent is Some ==> lo <= events[k].percent->0
            <= hi
    &&& forall|k: int, l: int|
        0 <= k < l < events.len() && (#[trigger] events[k]).percent is Some && (
        #[trigger] events[l]).percent is Some ==> events[k].percent->0 <= events[l].percent->0
}

pub open spec fn fast_cut_failure(i: nat, diagnostics: Seq<char>) -> Seq<char> {
    "FFmpeg segment extraction failed for segment "@ + decimal_text(i) + ": "@ + diagnostics
}

pub open spec fn chain_cut_failure(i: nat, diagnostics: Seq<char>) -> Seq<char> {
    "FFmpeg segment encoding failed for segment "@ + decimal_text(i) + ": "@ + diagnostics
}

pub open spec fn concat_failure(diagnostics: Seq<char>) -> Seq<char> {
    "FFmpeg concat failed: "@ + diagnostics
}

/// A running export.
pub struct ExportJob {
    pub segments: Vec<ExportSegment>,
    pub output_path: String,
    pub plan: ExportPlan,
    pub stage: Stage,
    pub scratch: String,
    /// Intermediate clips made so far, in order.
    pub files: Vec<String>,
    /// Milliseconds of segments cut so far.
    pub accumulated_ms: u64,
    /// The last percentage reported.
    pub last_percent: u64,
}

impl ExportJob {
    pub open spec fn n(self) -> nat {
        self.segments@.len()
    }

    /// Where the output is made.
    pub open spec fn staged(self) -> Seq<char> {
        staged_file(self.scratch@, self.output_path@)
    }

    pub open spec fn is_single(self) -> bool {
        self.plan.mode == ExportMode::Transition && self.n() == 1
    }

    pub open spec fn wf(self) -> bool {
        &&& self.wf_core()
        &&& self.stage_ok()
    }

    pub open spec fn wf_core(self) -> bool {
        &&& self.plan.wf()
        &&& self.plan.durations@.len() == self.n()
        &&& forall|i: int| 0 <= i < self.n() ==> #[trigger] self.plan.durations@[i] == duration(self.segments@[i])
        &&& forall|i: int| 0 <= i < self.n() ==> duration(#[trigger] self.segments@[i]) > 0
        &&& sum_durations(self.segments@) <= MAX_TIMELINE_MS
        &&& self.plan.mode == ExportMode::Transition && self.n() >= 2 ==> self.plan.offsets@.len() == self.n() - 1
        &&& self.last_percent <= 10000
        &&& self.files@.len() <= self.n()
        &&& texts(self.files@) == segment_files(self.scratch@, self.files@.len() as nat)
        &&& self.accumulated_ms == sum_prefix(self.segments@, self.files@.len() as int)
    }

    pub open spec fn stage_ok(self) -> bool {
        match self.stage {
            Stage::Cutting { index } => index == self.files@.len() && index < self.n() && !self.is_single(),
            Stage::Listing | Stage::Concatenating => self.files@.len() == self.n() && self.plan.mode == ExportMode::Fast,
            Stage::Joining => self.files@.len() == self.n() && self.plan.mode == ExportMode::Transition && self.n() >= 2,
            Stage::Encoding => self.is_single(),
            Stage::Created | Stage::AwaitScratch => self.files@.len() == 0 && self.last_percent == 0,
            _ => true,
        }
    }

    /// Plans a job. Fails with the plan's configuration error, before any
    /// event or process; the driver then ends the job with `refusal`, which
    /// reports the error unless the segment list was empty.
    pub fn new(segments: Vec<ExportSegment>, output_path: String, options: &ExportOptions) -> (r: Result<ExportJob, ExportError>)
        ensures
            match r {
                Ok(job) => plan_error(segments@, options.preset@, options.fade_ms as int) is None
                    && job.wf() && job.stage == Stage::Created && job.segments@ == segments@
                    && job.output_path@ == output_path@
                    && job.plan.describes(segments@, options.preset@, options.fade_ms as int)
                    && job.last_percent == 0,
                Err(e) => plan_error(segments@, options.preset@, options.fade_ms as int) == Some(e),
            },
    {
        match plan(&segments, options) {
            Err(e) => Err(e),
            Ok(p) => {
                let job = ExportJob {
                    segments,
                    output_path,
                    plan: p,
                    stage: Stage::Created,
                    scratch: String::new(),
                    files: Vec::new(),
                    accumulated_ms: 0,
                    last_percent: 0,
                };
                assert(texts(job.files@) =~= segment_files(job.scratch@, 0));
                Ok(job)
            },
        }
    }
}

pub open spec fn runs(a: JobAction, args: Seq<Seq<char>>, watch: bool) -> bool {
    a matches JobAction::Run { args: v, watch_progress: w } && texts(v@) == args && w == watch
}

pub open spec fn fails_with(a: JobAction, e: ExportError) -> bool {
    a matches JobAction::Finish { result: Err(x) } && x == e
}

pub open spec fn fails_in_process(a: JobAction, segment: Option<usize>, message: Seq<char>) -> bool {
    a matches JobAction::Finish { result: Err(ExportError::Process { segment: s, message: m }) }
        && s == segment && m@ == message
}

pub open spec fn succeeds_with(a: JobAction, output: Seq<char>) -> bool {
    a matches JobAction::Finish { result: Ok(p) } && p@ == output
}

impl ExportJob {
    /// Arguments of the run that makes intermediate clip `i`.
    pub open spec fn cut_args(self, i: int) -> Seq<Seq<char>> {
        let out = segment_file(self.scratch@, i as nat);
        if self.plan.mode == ExportMode::Fast {
            copy_cut_args(self.segments@[i], out)
        } else {
            intermediate_args(self.segments@[i], out)
        }
    }

    /// The report made as clip `i` starts, after `acc` ms were cut, when `last` was reported last.
    pub open spec fn cut_event(self, i: int, acc: nat, last: nat) -> ExportProgressEvent {
        ev(
            Phase::Rendering,
            (i + 1) as usize,
            self.n() as usize,
            Some(acc as u64),
            self.plan.total_ms,
            None,
            Some(max(last, cut_percent(self.plan.mode, acc, self.plan.total_ms as nat)) as u64),
        )
    }

    pub open spec fn error_event(self, current: usize) -> ExportProgressEvent {
        ev(Phase::Error, current, self.n() as usize, None, self.plan.total_ms, None, None)
    }

    pub open spec fn complete_event(self) -> ExportProgressEvent {
        ev(
            Phase::Complete,
            self.n() as usize,
            self.n() as usize,
            Some(self.plan.total_ms),
            self.plan.total_ms,
            None,
            Some(10000),
        )
    }

    /// Raises the last reported percentage to at least `p` and returns it.
    fn raise(&mut self, p: u64) -> (r: u64)
        requires
            p <= 10000,
            old(self).last_percent <= 10000,
        ensures
            r == max(old(self).last_percent as nat, p as nat),
            final(self).last_percent == r,
            r <= 10000,
            *final(self) == (ExportJob { last_percent: r, ..*old(self) }),
    {
        if p > self.last_percent {
            self.last_percent = p;
        }
        self.last_percent
    }

    fn report(&self, phase: Phase, current: usize, time: Option<u64>, fps: Option<u64>, percent: Option<u64>) -> (r: ExportProgressEvent)
        ensures
            r == ev(phase, current, self.n() as usize, time, self.plan.total_ms, fps, percent),
    {
        ExportProgressEvent {
            phase,
            current_segment: current,
            total_segments: self.segments.len(),
            current_time: time,
            total_time: Some(self.plan.total_ms),
            fps,
            percent,
        }
    }

    /// Ends the job with an error report for `current` and `e`.
    fn fail(&mut self, current: usize, e: ExportError) -> (r: Step)
        requires
            old(self).wf(),
        ensures
            final(self).wf(),
            final(self).stage == Stage::Done,
            *final(self) == (ExportJob { stage: Stage::Done, ..*old(self) }),
            r.events@ == seq![old(self).error_event(current)],
            fails_with(r.action, e),
    {
        let event = self.report(Phase::Error, current, None, None, None);
        self.stage = Stage::Done;
        Step { events: vec![event], action: JobAction::Finish { result: Err(e) } }
    }

    /// Ends the job with success.
    fn complete(&mut self) -> (r: Step)
        requires
            old(self).wf(),
        ensures
            final(self).wf(),
            *final(self) == (ExportJob { stage: Stage::Done, last_percent: 10000, ..*old(self) }),
            r.events@ == seq![old(self).complete_event()],
            succeeds_with(r.action, old(self).output_path@),
    {
        let event = self.report(Phase::Complete, self.segments.len(), Some(self.plan.total_ms), None, Some(10000));
        self.stage = Stage::Done;
        self.last_percent = 10000;
        Step { events: vec![event], action: JobAction::Finish { result: Ok(self.output_path.clone()) } }
    }
}

pub open spec fn opt_u64(x: Option<nat>) -> Option<u64> {
    match x {
        Some(v) => Some(v as u64),
        None => None,
    }
}

proof fn lemma_share_bounds(t: nat, total: nat, span: nat)
    requires
        total > 0,
    ensures
        t >= total ==> t * span / total >= span,
{
    if t >= total {
        assert(total * span <= t * span) by (nonlinear_arith)
            requires
                t >= total,
        ;
        lemma_div_is_ordered((total * span) as int, (t * span) as int, total as int);
        assert(total * span == span * total) by (nonlinear_arith);
        lemma_div_by_multiple(span as int, total as int);
    }
}

/// `min(t * span / total, cap)`.
pub open spec fn capped(t: nat, total: nat, span: nat, cap: nat) -> nat {
    let p = t * span / total;
    if p < cap {
        p
    } else {
        cap
    }
}

/// `min(t * span / total, cap)`, for `cap <= span`.
fn capped_share(t: u64, total: u64, span: u64, cap: u64) -> (r: u64)
    requires
        0 < total <= MAX_TIMELINE_MS,
        cap <= span <= 10000,
    ensures
        r == capped(t as nat, total as nat, span as nat, cap as nat),
{
    proof {
        lemma_share_bounds(t as nat, total as nat, span as nat);
    }
    if t >= total {
        return cap;
    }
    assert(t * span <= 10000 * MAX_TIMELINE_MS) by (nonlinear_arith)
        requires
            t < total,
            total <= MAX_TIMELINE_MS,
            span <= 10000,
    ;
    let p = t * span / total;
    if p < cap {
        p
    } else {
        cap
    }
}

fn failure_text(head: &str, i: usize, diagnostics: &String) -> (r: String)
    ensures
        r@ == head@ + decimal_text(i as nat) + ": "@ + diagnostics@,
{
    let mut s = String::from_str(head);
    push_decimal(&mut s, i as u64);
    s.append(": ");
    s.append(diagnostics.as_str());
    s
}

impl ExportJob {
    /// Starts cutting clip `i`: reports it and hands out its run.
    fn begin_cut(&mut self, i: usize) -> (r: Step)
        requires
            old(self).wf_core(),
            i == old(self).files@.len(),
            i < old(self).n(),
            !old(self).is_single(),
        ensures
            final(self).wf(),
            final(self).last_percent == max(
                old(self).last_percent as nat,
                cut_percent(old(self).plan.mode, old(self).accumulated_ms as nat, old(self).plan.total_ms as nat),
            ),
            *final(self) == (ExportJob {
                stage: Stage::Cutting { index: i },
                last_percent: final(self).last_percent,
                ..*old(self)
            }),
            r.events@ == seq![old(self).cut_event(i as int, old(self).accumulated_ms as nat, old(self).last_percent as nat)],
            runs(r.action, old(self).cut_args(i as int), false),
    {
        let fast = self.plan.mode == ExportMode::Fast;
        let n = self.segments.len();
        proof {
            crate::plan::lemma_prefix_growth(self.segments@, -1, i as int, self.n() as int);
            assert(self.plan.durations@[i as int] > 0);
        }
        let span: u64 = if fast { 10000 } else { 5000 };
        let p = capped_share(self.accumulated_ms, self.plan.total_ms, span, span);
        let pct = self.raise(p);
        let acc = self.accumulated_ms;
        let event = self.report(Phase::Rendering, i + 1, Some(acc), None, Some(pct));
        let out = segment_path(&self.scratch, i);
        let args = if fast {
            copy_cut_command(&self.segments[i], &out)
        } else {
            intermediate_command(&self.segments[i], &out)
        };
        self.stage = Stage::Cutting { index: i };
        Step { events: vec![event], action: JobAction::Run { args, watch_progress: false } }
    }

    /// Starts the job: reports `preparing` at 0% and asks for a scratch directory.
    pub fn start(&mut self) -> (r: Step)
        requires
            old(self).wf(),
        ensures
            final(self).wf(),
            old(self).last_percent == final(self).last_percent,
            rising(r.events@, old(self).last_percent as nat, final(self).last_percent as nat),
            old(self).stage == Stage::Created ==> {
                &&& *final(self) == (ExportJob { stage: Stage::AwaitScratch, ..*old(self) })
                &&& r.events@ == seq![
                    ev(Phase::Preparing, 0, old(self).n() as usize, None, old(self).plan.total_ms, None, Some(0)),
                ]
                &&& r.action is CreateScratch
            },
            old(self).stage != Stage::Created ==> *final(self) == *old(self) && r.events@.len() == 0
                && r.action is Wait,
    {
        if self.stage != Stage::Created {
            return Step { events: Vec::new(), action: JobAction::Wait };
        }
        let event = self.report(Phase::Preparing, 0, None, None, Some(0));
        self.stage = Stage::AwaitScratch;
        Step { events: vec![event], action: JobAction::CreateScratch }
    }

    /// The scratch directory `dir` exists: rendering starts.
    pub fn scratch_ready(&mut self, dir: String) -> (r: Step)
        requires
            old(self).wf(),
        ensures
            final(self).wf(),
            rising(r.events@, old(self).last_percent as nat, final(self).last_percent as nat),
            old(self).stage == Stage::AwaitScratch ==> {
                &&& final(self).scratch@ == dir@
                &&& final(self).segments == old(self).segments
                &&& final(self).plan == old(self).plan
                &&& final(self).output_path == old(self).output_path
                &&& final(self).last_percent == 0
                &&& if old(self).is_single() {
                    &&& final(self).stage == Stage::Encoding
                    &&& r.events@ == seq![
                        ev(Phase::Rendering, 1, 1, Some(0), old(self).plan.total_ms, None, Some(0)),
                    ]
                    &&& runs(
                        r.action,
                        single_encode_args(old(self).segments@[0], final(self).staged(), old(self).plan.high_quality),
                        true,
                    )
                } else {
                    &&& final(self).stage == Stage::Cutting { index: 0 }
                    &&& r.events@ == (if old(self).plan.mode == ExportMode::Fast {
                        seq![old(self).cut_event(0, 0, 0)]
                    } else {
                        seq![
                            ev(Phase::Rendering, 0, old(self).n() as usize, Some(0), old(self).plan.total_ms, None, Some(0)),
                            old(self).cut_event(0, 0, 0),
                        ]
                    })
                    &&& runs(r.action, final(self).cut_args(0), false)
                }
            },
            old(self).stage != Stage::AwaitScratch ==> *final(self) == *old(self) && r.events@.len() == 0
                && r.action is Wait,
    {
        if self.stage != Stage::AwaitScratch {
            return Step { events: Vec::new(), action: JobAction::Wait };
        }
        self.scratch = dir;
        proof {
            assert(texts(self.files@) =~= segment_files(self.scratch@, 0));
        }
        let n = self.segments.len();
        if self.plan.mode == ExportMode::Transition && n == 1 {
            let event = self.report(Phase::Rendering, 1, Some(0), None, Some(0));
            let staged = staged_path(&self.scratch, &self.output_path);
            let args = single_encode_command(&self.segments[0], &staged, self.plan.high_quality);
            self.stage = Stage::Encoding;
            return Step { events: vec![event], action: JobAction::Run { args, watch_progress: true } };
        }
        assert(self.accumulated_ms == 0);
        assert(0nat * 10000 / (self.plan.total_ms as nat) == 0);
        assert(0nat * 5000 / (self.plan.total_ms as nat) == 0);
        if self.plan.mode == ExportMode::Fast {
            self.begin_cut(0)
        } else {
            let first = self.report(Phase::Rendering, 0, Some(0), None, Some(0));
            let step = self.begin_cut(0);
            let mut events = vec![first];
            let mut rest = step.events;
            events.append(&mut rest);
            Step { events, action: step.action }
        }
    }
}

impl ExportJob {
    /// Where the final phase starts: 95% after stream-copy cuts, half way in a cross-fade chain.
    pub open spec fn final_floor(self) -> nat {
        if self.plan.mode == ExportMode::Fast {
            9500
        } else {
            5000
        }
    }

    /// The report that opens the final phase, when `last` was reported last.
    pub open spec fn finalizing_event(self, last: nat) -> ExportProgressEvent {
        let floor = self.final_floor();
        ev(
            Phase::Finalizing,
            self.n() as usize,
            self.n() as usize,
            Some(self.plan.total_ms),
            self.plan.total_ms,
            None,
            Some(max(last, floor) as u64),
        )
    }

    /// Clip `i` is made: the next clip starts, or the final phase.
    fn cut_done(&mut self, i: usize) -> (r: Step)
        requires
            old(self).wf(),
            old(self).stage == (Stage::Cutting { index: i }),
        ensures
            final(self).wf(),
            old(self).last_percent <= final(self).last_percent,
            rising(r.events@, old(self).last_percent as nat, final(self).last_percent as nat),
            final(self).segments == old(self).segments,
            final(self).plan == old(self).plan,
            final(self).output_path == old(self).output_path,
            final(self).scratch == old(self).scratch,
            final(self).files@.len() == i + 1,
            final(self).accumulated_ms == sum_prefix(old(self).segments@, i + 1),
            i + 1 < old(self).n() ==> final(self).last_percent == max(
                old(self).last_percent as nat,
                cut_percent(old(self).plan.mode, final(self).accumulated_ms as nat, old(self).plan.total_ms as nat),
            ),
            i + 1 == old(self).n() ==> final(self).last_percent == max(
                old(self).last_percent as nat,
                old(self).final_floor(),
            ),
            i + 1 < old(self).n() ==> {
                &&& final(self).stage == Stage::Cutting { index: (i + 1) as usize }
                &&& r.events@ == seq![old(self).cut_event(i + 1, final(self).accumulated_ms as nat, old(self).last_percent as nat)]
                &&& runs(r.action, old(self).cut_args(i + 1), false)
            },
            i + 1 == old(self).n() ==> r.events@ == seq![old(self).finalizing_event(old(self).last_percent as nat)],
            i + 1 == old(self).n() && old(self).plan.mode == ExportMode::Fast ==> {
                &&& final(self).stage == Stage::Listing
                &&& r.action matches JobAction::WriteList { path, contents }
                &&& path@ == list_file(old(self).scratch@)
                &&& contents@ == concat_list(segment_files(old(self).scratch@, old(self).n()))
            },
            i + 1 == old(self).n() && old(self).plan.mode == ExportMode::Transition ==> {
                &&& final(self).stage == Stage::Joining
                &&& runs(
                    r.action,
                    assembly_args(
                        segment_files(old(self).scratch@, old(self).n()),
                        filter_graph(old(self).plan.fade_ms as nat, old(self).plan.offsets@),
                        old(self).staged(),
                        old(self).plan.high_quality,
                    ),
                    true,
                )
            },
    {
        let n = self.segments.len();
        self.record_cut(i);
        if i + 1 < n {
            return self.begin_cut(i + 1);
        }
        if self.plan.mode == ExportMode::Fast {
            self.begin_listing()
        } else {
            self.begin_join()
        }
    }

    /// Books clip `i` as made.
    fn record_cut(&mut self, i: usize)
        requires
            old(self).wf(),
            old(self).stage == (Stage::Cutting { index: i }),
        ensures
            final(self).wf_core(),
            final(self).files@.len() == i + 1,
            *final(self) == (ExportJob {
                files: final(self).files,
                accumulated_ms: final(self).accumulated_ms,
                ..*old(self)
            }),
    {
        proof {
            crate::plan::lemma_prefix_growth(self.segments@, -1, i + 1, self.n() as int);
            assert(sum_prefix(self.segments@, i + 1) == sum_prefix(self.segments@, i as int) + duration(self.segments@[i as int]));
        }
        let d = self.segments[i].end_ms - self.segments[i].start_ms;
        self.accumulated_ms = self.accumulated_ms + d;
        let file = segment_path(&self.scratch, i);
        let ghost old_files = self.files@;
        let ghost fv = file@;
        self.files.push(file);
        proof {
            assert(texts(self.files@) =~= texts(old_files).push(fv));
            assert(segment_files(self.scratch@, (i + 1) as nat) =~= segment_files(self.scratch@, i as nat).push(
                segment_file(self.scratch@, i as nat),
            ));
        }
    }

    /// All cuts are made: report the final phase and ask for the concat list.
    fn begin_listing(&mut self) -> (r: Step)
        requires
            old(self).wf_core(),
            old(self).files@.len() == old(self).n(),
            old(self).plan.mode == ExportMode::Fast,
        ensures
            final(self).wf(),
            *final(self) == (ExportJob {
                stage: Stage::Listing,
                last_percent: max(old(self).last_percent as nat, 9500) as u64,
                ..*old(self)
            }),
            r.events@ == seq![old(self).finalizing_event(old(self).last_percent as nat)],
            r.action matches JobAction::WriteList { path, contents },
            r.action matches JobAction::WriteList { path, contents } ==> path@ == list_file(
                old(self).scratch@,
            ) && contents@ == concat_list(segment_files(old(self).scratch@, old(self).n())),
    {
        let n = self.segments.len();
        let pct = self.raise(9500);
        let event = self.report(Phase::Finalizing, n, Some(self.plan.total_ms), None, Some(pct));
        let path = list_path(&self.scratch);
        let contents = concat_list_text(&self.files);
        self.stage = Stage::Listing;
        Step { events: vec![event], action: JobAction::WriteList { path, contents } }
    }

    /// All clips are made: report the final phase and run the cross-fade chain.
    fn begin_join(&mut self) -> (r: Step)
        requires
            old(self).wf_core(),
            old(self).files@.len() == old(self).n(),
            old(self).n() >= 2,
            old(self).plan.mode == ExportMode::Transition,
        ensures
            final(self).wf(),
            *final(self) == (ExportJob {
                stage: Stage::Joining,
                last_percent: max(old(self).last_percent as nat, 5000) as u64,
                ..*old(self)
            }),
            r.events@ == seq![old(self).finalizing_event(old(self).last_percent as nat)],
            runs(
                r.action,
                assembly_args(
                    segment_files(old(self).scratch@, old(self).n()),
                    filter_graph(old(self).plan.fade_ms as nat, old(self).plan.offsets@),
                    old(self).staged(),
                    old(self).plan.high_quality,
                ),
                true,
            ),
    {
        let n = self.segments.len();
        let pct = self.raise(5000);
        let event = self.report(Phase::Finalizing, n, Some(self.plan.total_ms), None, Some(pct));
        let graph = build_filter_graph(&self.plan.offsets, self.plan.fade_ms);
        let staged = staged_path(&self.scratch, &self.output_path);
        let args = assembly_command(&self.files, graph, &staged, self.plan.high_quality);
        self.stage = Stage::Joining;
        Step { events: vec![event], action: JobAction::Run { args, watch_progress: true } }
    }

    /// What an exit of the encoder, with `success` or not and `diagnostics`,
    /// does to the job `self`, giving `new` and the step `r`.
    pub open spec fn after_exit(self, new: ExportJob, success: bool, diagnostics: Seq<char>, r: Step) -> bool {
        match self.stage {
            Stage::Cutting { index } => if success {
                &&& new.files@.len() == index + 1
                &&& new.accumulated_ms == sum_prefix(self.segments@, index + 1)
                &&& (index + 1 < self.n() ==> new.last_percent == max(
                    self.last_percent as nat,
                    cut_percent(self.plan.mode, new.accumulated_ms as nat, self.plan.total_ms as nat),
                ))
                &&& (index + 1 == self.n() ==> new.last_percent == max(
                    self.last_percent as nat,
                    self.final_floor(),
                ))
                &&& (index + 1 < self.n() ==> {
                    &&& new.stage == Stage::Cutting { index: (index + 1) as usize }
                    &&& r.events@ == seq![self.cut_event(index + 1, new.accumulated_ms as nat, self.last_percent as nat)]
                    &&& runs(r.action, self.cut_args(index + 1), false)
                })
                &&& (index + 1 == self.n() ==> r.events@ == seq![self.finalizing_event(self.last_percent as nat)])
                &&& (index + 1 == self.n() && self.plan.mode == ExportMode::Fast ==> {
                    &&& new.stage == Stage::Listing
                    &&& r.action matches JobAction::WriteList { path, contents }
                    &&& path@ == list_file(self.scratch@)
                    &&& contents@ == concat_list(segment_files(self.scratch@, self.n()))
                })
                &&& (index + 1 == self.n() && self.plan.mode == ExportMode::Transition ==> {
                    &&& new.stage == Stage::Joining
                    &&& runs(
                        r.action,
                        assembly_args(
                            segment_files(self.scratch@, self.n()),
                            filter_graph(self.plan.fade_ms as nat, self.plan.offsets@),
                            self.staged(),
                            self.plan.high_quality,
                        ),
                        true,
                    )
                })
            } else {
                &&& new.stage == Stage::Done
                &&& new.last_percent == self.last_percent
                &&& r.events@ == seq![self.error_event((index + 1) as usize)]
                &&& fails_in_process(
                    r.action,
                    Some(index),
                    if self.plan.mode == ExportMode::Fast {
                        fast_cut_failure(index as nat, diagnostics)
                    } else {
                        chain_cut_failure(index as nat, diagnostics)
                    },
                )
            },
            Stage::Concatenating | Stage::Encoding | Stage::Joining => if success {
                &&& new == (ExportJob { stage: Stage::Publishing, ..self })
                &&& r.events@.len() == 0
                &&& r.action matches JobAction::Publish { from, to }
                &&& from@ == self.staged()
                &&& to@ == self.output_path@
            } else {
                &&& new.stage == Stage::Done
                &&& new.last_percent == self.last_percent
                &&& r.events@ == seq![self.error_event(self.n() as usize)]
                &&& fails_in_process(
                    r.action,
                    if self.stage == Stage::Encoding { Some(0usize) } else { None },
                    if self.stage == Stage::Concatenating {
                        concat_failure(diagnostics)
                    } else if self.stage == Stage::Encoding {
                        "FFmpeg encoding failed for segment 0"@
                    } else {
                        "FFmpeg xfade failed"@
                    },
                )
            },
            _ => new == self && r.events@.len() == 0 && r.action is Wait,
        }
    }

    fn cut_exit(&mut self, index: usize, success: bool, diagnostics: String) -> (r: Step)
        requires
            old(self).wf(),
            old(self).stage == (Stage::Cutting { index }),
        ensures
            final(self).wf(),
            old(self).last_percent <= final(self).last_percent,
            rising(r.events@, old(self).last_percent as nat, final(self).last_percent as nat),
            final(self).segments == old(self).segments,
            final(self).plan == old(self).plan,
            final(self).output_path == old(self).output_path,
            final(self).scratch == old(self).scratch,
            old(self).after_exit(*final(self), success, diagnostics@, r),
    {
        let n = self.segments.len();
        if success {
            self.cut_done(index)
        } else {
            let message = if self.plan.mode == ExportMode::Fast {
                failure_text("FFmpeg segment extraction failed for segment ", index, &diagnostics)
            } else {
                failure_text("FFmpeg segment encoding failed for segment ", index, &diagnostics)
            };
            self.fail(index + 1, ExportError::Process { segment: Some(index), message })
        }
    }

    fn final_exit(&mut self, success: bool, diagnostics: String) -> (r: Step)
        requires
            old(self).wf(),
            old(self).stage == Stage::Concatenating || old(self).stage == Stage::Encoding
                || old(self).stage == Stage::Joining,
        ensures
            final(self).wf(),
            old(self).last_percent == final(self).last_percent,
            rising(r.events@, old(self).last_percent as nat, final(self).last_percent as nat),
            final(self).segments == old(self).segments,
            final(self).plan == old(self).plan,
            final(self).output_path == old(self).output_path,
            final(self).scratch == old(self).scratch,
            old(self).after_exit(*final(self), success, diagnostics@, r),
    {
        if success {
            let from = staged_path(&self.scratch, &self.output_path);
            let to = self.output_path.clone();
            self.stage = Stage::Publishing;
            return Step { events: Vec::new(), action: JobAction::Publish { from, to } };
        }
        let n = self.segments.len();
        if self.stage == Stage::Concatenating {
            let mut message = String::from_str("FFmpeg concat failed: ");
            message.append(diagnostics.as_str());
            self.fail(n, ExportError::Process { segment: None, message })
        } else if self.stage == Stage::Encoding {
            let message = String::from_str("FFmpeg encoding failed for segment 0");
            self.fail(n, ExportError::Process { segment: Some(0), message })
        } else {
            let message = String::from_str("FFmpeg xfade failed");
            self.fail(n, ExportError::Process { segment: None, message })
        }
    }

    /// The encoder exited, with `success` or not; `diagnostics` is what it wrote
    /// on its diagnostic stream.
    pub fn process_exited(&mut self, success: bool, diagnostics: String) -> (r: Step)
        requires
            old(self).wf(),
        ensures
            final(self).wf(),
            old(self).last_percent <= final(self).last_percent,
            rising(r.events@, old(self).last_percent as nat, final(self).last_percent as nat),
            final(self).segments == old(self).segments,
            final(self).plan == old(self).plan,
            final(self).output_path == old(self).output_path,
            final(self).scratch == old(self).scratch,
            old(self).after_exit(*final(self), success, diagnostics@, r),
    {
        match self.stage {
            Stage::Cutting { index } => self.cut_exit(index, success, diagnostics),
            Stage::Concatenating | Stage::Encoding | Stage::Joining => self.final_exit(success, diagnostics),
            _ => Step { events: Vec::new(), action: JobAction::Wait },
        }
    }
}

impl ExportJob {
    /// The report for a progress line that reads `t` ms at `fps`, when `last` was reported last.
    pub open spec fn line_event(self, t: nat, fps: Option<nat>, last: nat) -> ExportProgressEvent {
        if self.stage == Stage::Encoding {
            ev(
                Phase::Rendering,
                1,
                1,
                Some(t as u64),
                self.plan.total_ms,
                opt_u64(fps),
                Some(max(last, capped(t, self.plan.total_ms as nat, 10000, 9900)) as u64),
            )
        } else {
            ev(
                Phase::Finalizing,
                self.n() as usize,
                self.n() as usize,
                Some(t as u64),
                self.plan.total_ms,
                opt_u64(fps),
                Some(max(last, 5000 + capped(t, self.plan.total_ms as nat, 5000, 4900)) as u64),
            )
        }
    }

    /// A line of the running encoder's diagnostic stream. While encoding a lone
    /// segment or running the cross-fade chain, a progress line becomes a report;
    /// anything else is ignored.
    pub fn progress_line(&mut self, line: &str) -> (r: Step)
        requires
            old(self).wf(),
        ensures
            final(self).wf(),
            old(self).last_percent <= final(self).last_percent,
            rising(r.events@, old(self).last_percent as nat, final(self).last_percent as nat),
            r.action is Wait,
            *final(self) == (ExportJob { last_percent: final(self).last_percent, ..*old(self) }),
            (old(self).stage == Stage::Encoding || old(self).stage == Stage::Joining) ==> match progress_of(line@) {
                Some((t, fps)) => r.events@ == seq![old(self).line_event(t, fps, old(self).last_percent as nat)]
                    && Some(final(self).last_percent) == old(self).line_event(t, fps, old(self).last_percent as nat).percent,
                None => r.events@.len() == 0 && final(self).last_percent == old(self).last_percent,
            },
            !(old(self).stage == Stage::Encoding || old(self).stage == Stage::Joining) ==> *final(self)
                == *old(self) && r.events@.len() == 0,
    {
        if self.stage != Stage::Encoding && self.stage != Stage::Joining {
            return Step { events: Vec::new(), action: JobAction::Wait };
        }
        match parse_ffmpeg_progress(line) {
            None => Step { events: Vec::new(), action: JobAction::Wait },
            Some((t, fps)) => {
                let total = self.plan.total_ms;
                let event = if self.stage == Stage::Encoding {
                    let p = capped_share(t, total, 10000, 9900);
                    let pct = self.raise(p);
                    self.report(Phase::Rendering, 1, Some(t), fps, Some(pct))
                } else {
                    let p = 5000 + capped_share(t, total, 5000, 4900);
                    let pct = self.raise(p);
                    self.report(Phase::Finalizing, self.segments.len(), Some(t), fps, Some(pct))
                };
                Step { events: vec![event], action: JobAction::Wait }
            },
        }
    }

    /// The encoder could not be started: the job fails.
    pub fn spawn_failed(&mut self, message: String) -> (r: Step)
        requires
            old(self).wf(),
        ensures
            final(self).wf(),
            old(self).last_percent == final(self).last_percent,
            rising(r.events@, old(self).last_percent as nat, final(self).last_percent as nat),
            match old(self).stage {
                Stage::Cutting { index } => final(self).stage == Stage::Done && r.events@ == seq![
                    old(self).error_event((index + 1) as usize),
                ] && fails_with(r.action, ExportError::Spawn { message }),
                Stage::Concatenating | Stage::Encoding | Stage::Joining => final(self).stage
                    == Stage::Done && r.events@ == seq![old(self).error_event(old(self).n() as usize)]
                    && fails_with(r.action, ExportError::Spawn { message }),
                _ => *final(self) == *old(self) && r.events@.len() == 0 && r.action is Wait,
            },
    {
        let n = self.segments.len();
        match self.stage {
            Stage::Cutting { index } => self.fail(index + 1, ExportError::Spawn { message }),
            Stage::Concatenating | Stage::Encoding | Stage::Joining => self.fail(
                n,
                ExportError::Spawn { message },
            ),
            _ => Step { events: Vec::new(), action: JobAction::Wait },
        }
    }

    /// The scratch directory or the concat list could not be made: the job fails.
    pub fn io_failed(&mut self, message: String) -> (r: Step)
        requires
            old(self).wf(),
        ensures
            final(self).wf(),
            old(self).last_percent == final(self).last_percent,
            rising(r.events@, old(self).last_percent as nat, final(self).last_percent as nat),
            match old(self).stage {
                Stage::AwaitScratch => final(self).stage == Stage::Done && r.events@ == seq![
                    old(self).error_event(0),
                ] && fails_with(r.action, ExportError::Io { message }),
                Stage::Listing | Stage::Publishing => final(self).stage == Stage::Done && r.events@ == seq![
                    old(self).error_event(old(self).n() as usize),
                ] && fails_with(r.action, ExportError::Io { message }),
                _ => *final(self) == *old(self) && r.events@.len() == 0 && r.action is Wait,
            },
    {
        let n = self.segments.len();
        match self.stage {
            Stage::AwaitScratch => self.fail(0, ExportError::Io { message }),
            Stage::Listing | Stage::Publishing => self.fail(n, ExportError::Io { message }),
            _ => Step { events: Vec::new(), action: JobAction::Wait },
        }
    }

    /// The concat list is written: the cuts are joined.
    pub fn list_written(&mut self) -> (r: Step)
        requires
            old(self).wf(),
        ensures
            final(self).wf(),
            old(self).last_percent == final(self).last_percent,
            r.events@.len() == 0,
            old(self).stage == Stage::Listing ==> *final(self) == (ExportJob {
                stage: Stage::Concatenating,
                ..*old(self)
            }) && runs(r.action, concat_args(list_file(old(self).scratch@), old(self).staged()), false),
            old(self).stage != Stage::Listing ==> *final(self) == *old(self) && r.action is Wait,
    {
        if self.stage != Stage::Listing {
            return Step { events: Vec::new(), action: JobAction::Wait };
        }
        let list = list_path(&self.scratch);
        let staged = staged_path(&self.scratch, &self.output_path);
        let args = concat_command(&list, &staged);
        self.stage = Stage::Concatenating;
        Step { events: Vec::new(), action: JobAction::Run { args, watch_progress: false } }
    }
}

impl ExportJob {
    /// The finished file is at the output path: the job is complete.
    pub fn published(&mut self) -> (r: Step)
        requires
            old(self).wf(),
        ensures
            final(self).wf(),
            old(self).last_percent <= final(self).last_percent,
            rising(r.events@, old(self).last_percent as nat, final(self).last_percent as nat),
            old(self).stage == Stage::Publishing ==> {
                &&& final(self).stage == Stage::Done
                &&& r.events@ == seq![old(self).complete_event()]
                &&& succeeds_with(r.action, old(self).output_path@)
            },
            old(self).stage != Stage::Publishing ==> *final(self) == *old(self) && r.events@.len() == 0
                && r.action is Wait,
    {
        if self.stage != Stage::Publishing {
            return Step { events: Vec::new(), action: JobAction::Wait };
        }
        self.complete()
    }
}

/// The report of a job refused before it started: none for an empty segment
/// list, else one error report. A non-empty job whose segments cannot be
/// planned (`plan_error`) thus still ends with exactly one `error` event.
pub open spec fn refusal_events(n: nat) -> Seq<ExportProgressEvent> {
    if n == 0 {
        seq![]
    } else {
        seq![
            ExportProgressEvent {
                phase: Phase::Error,
                current_segment: 0,
                total_segments: n as usize,
                current_time: None,
                total_time: None,
                fps: None,
                percent: None,
            },
        ]
    }
}

impl ExportJob {
    /// Ends a job that `new` refused with `e`, for `segments`: it reports the
    /// error unless there were no segments at all, then fails with `e`.
    pub fn refusal(segments: &Vec<ExportSegment>, e: ExportError) -> (r: Step)
        ensures
            r.events@ == refusal_events(segments@.len()),
            fails_with(r.action, e),
    {
        let n = segments.len();
        let mut events: Vec<ExportProgressEvent> = Vec::new();
        if n > 0 {
            events.push(
                ExportProgressEvent {
                    phase: Phase::Error,
                    current_segment: 0,
                    total_segments: n,
                    current_time: None,
                    total_time: None,
                    fps: None,
                    percent: None,
                },
            );
        }
        assert(events@ =~= refusal_events(n as nat));
        Step { events, action: JobAction::Finish { result: Err(e) } }
    }
}

/// Where in `dir` the output `output` is made.
pub fn staged_path(dir: &String, output: &String) -> (r: String)
    ensures
        r@ == staged_file(dir@, output@),
{
    let mut s = dir.clone();
    s.append("/");
    s.append(crate::scan::text_after_last(output.as_str(), '/'));
    s
}

/// The path of intermediate clip `i` in `dir`.
pub fn segment_path(dir: &String, i: usize) -> (r: String)
    ensures
        r@ == segment_file(dir@, i as nat),
{
    let mut s = dir.clone();
    s.append("/segment_");
    push_padded(&mut s, i as u64, 4);
    s.append(".mp4");
    s
}

/// The path of the concat list in `dir`.
pub fn list_path(dir: &String) -> (r: String)
    ensures
        r@ == list_file(dir@),
{
    let mut s = dir.clone();
    s.append("/concat_list.txt");
    s
}

} // verus!
