//! The export plan: which mode a job runs in, how long its output is, and
//! where each cross-fade starts.
use vstd::prelude::*;

verus! {

/// One slice of one source, in milliseconds. Where `audio_source_path` is set,
/// the audio comes from that file instead, starting at `audio_start_ms` (or at
/// `start_ms` when unset) and lasting until `audio_end_ms` (or for the video's
/// duration when unset). Without `audio_source_path` the two audio times are
/// ignored: an audio range without a source means nothing.
#[derive(Clone, Debug)]
pub struct ExportSegment {
    pub source_path: String,
    pub start_ms: u64,
    pub end_ms: u64,
    pub audio_source_path: Option<String>,
    pub audio_start_ms: Option<u64>,
    pub audio_end_ms: Option<u64>,
}

impl ExportSegment {
    /// A segment whose audio comes with its video.
    pub fn new(source_path: String, start_ms: u64, end_ms: u64) -> (r: Self)
        ensures
            r.source_path == source_path,
            r.start_ms == start_ms,
            r.end_ms == end_ms,
            r.audio_source_path is None,
            r.audio_start_ms is None,
            r.audio_end_ms is None,
    {
        ExportSegment {
            source_path,
            start_ms,
            end_ms,
            audio_source_path: None,
            audio_start_ms: None,
            audio_end_ms: None,
        }
    }
}

/// Default length of a cross-fade: about five frames at 30 frames per second.
pub const DEFAULT_FADE_MS: u64 = 167;

/// How a job is rendered. `preset` is `fast` or empty for stream copy; any
/// other value re-encodes with cross-fades, `high` with a better quality.
#[derive(Clone, Debug)]
pub struct ExportOptions {
    pub preset: String,
    pub fade_ms: u64,
}

/// The fade length that options get when none is given.
pub fn default_fade_duration() -> (r: u64)
    ensures
        r == DEFAULT_FADE_MS,
{
    DEFAULT_FADE_MS
}

impl Default for ExportOptions {
    fn default() -> (r: Self)
        ensures
            r.preset@ == Seq::<char>::empty(),
            r.fade_ms == DEFAULT_FADE_MS,
    {
        ExportOptions { preset: String::new(), fade_ms: default_fade_duration() }
    }
}

#[derive(Clone, Copy, Debug, PartialEq, Eq, Structural)]
pub enum ExportMode {
    /// Each segment is cut without re-encoding and the cuts are concatenated.
    Fast,
    /// Segments are re-encoded and joined by cross-fades.
    Transition,
}

/// Longest output, in milliseconds, that a job may describe (about 31 years).
pub const MAX_TIMELINE_MS: u64 = 1_000_000_000_000;

/// Errors of a job. The first four are configuration errors, found before any
/// process runs.
#[derive(Clone, Debug)]
pub enum ExportError {
    /// The segment list is empty.
    NoSegments,
    /// The segment at `index` does not end after it starts.
    EmptySegment { index: usize },
    /// The segments together last longer than `MAX_TIMELINE_MS`.
    TimelineTooLong,
    /// In a cross-fade chain, the segment at `index` is not longer than the
    /// fade. Its fade would start no later than the one before it, or before
    /// the start, so the chain has no well-formed graph: the job is refused,
    /// and reports the refusal with one `error` event (`ExportJob::refusal`).
    FadeTooLong { index: usize },
    /// The encoder could not be started.
    Spawn { message: String },
    /// The encoder ended with a failure; `segment` is the segment it was cutting.
    Process { segment: Option<usize>, message: String },
    /// The scratch area could not be created or written.
    Io { message: String },
}

/// The text of a configuration error; other errors carry their own.
pub open spec fn error_text(e: ExportError) -> Seq<char> {
    match e {
        ExportError::NoSegments => "No segments to export"@,
        ExportError::EmptySegment { index } => "Segment "@ + crate::text::decimal_text(index as nat)
            + " does not end after it starts"@,
        ExportError::TimelineTooLong => "Segments are too long to export"@,
        ExportError::FadeTooLong { index } => "Segment "@ + crate::text::decimal_text(index as nat)
            + " is not longer than the fade"@,
        ExportError::Spawn { message } => message@,
        ExportError::Process { message, .. } => message@,
        ExportError::Io { message } => message@,
    }
}

impl ExportError {
    /// What the error says to the person exporting.
    pub fn message(&self) -> (r: String)
        ensures
            r@ == error_text(*self),
    {
        match self {
            ExportError::NoSegments => String::from_str("No segments to export"),
            ExportError::EmptySegment { index } => {
                let mut s = String::from_str("Segment ");
                crate::text::push_decimal(&mut s, *index as u64);
                s.append(" does not end after it starts");
                s
            },
            ExportError::TimelineTooLong => String::from_str("Segments are too long to export"),
            ExportError::FadeTooLong { index } => {
                let mut s = String::from_str("Segment ");
                crate::text::push_decimal(&mut s, *index as u64);
                s.append(" is not longer than the fade");
                s
            },
            ExportError::Spawn { message } => message.clone(),
            ExportError::Process { message, .. } => message.clone(),
            ExportError::Io { message } => message.clone(),
        }
    }
}

pub open spec fn duration(s: ExportSegment) -> int {
    s.end_ms - s.start_ms
}

/// Total duration of the first `i` segments.
pub open spec fn sum_prefix(segs: Seq<ExportSegment>, i: int) -> int
    decreases i,
{
    if i <= 0 {
        0
    } else {
        sum_prefix(segs, i - 1) + duration(segs[i - 1])
    }
}

pub open spec fn sum_durations(segs: Seq<ExportSegment>) -> int {
    sum_prefix(segs, segs.len() as int)
}

/// The presets that select stream copy.
pub open spec fn is_fast_preset(p: Seq<char>) -> bool {
    p == Seq::<char>::empty() || p == "fast"@
}

pub open spec fn mode_of(preset: Seq<char>) -> ExportMode {
    if is_fast_preset(preset) {
        ExportMode::Fast
    } else {
        ExportMode::Transition
    }
}

/// Output duration: in a cross-fade chain each fade overlaps its two neighbours.
pub open spec fn total_of(segs: Seq<ExportSegment>, mode: ExportMode, fade: int) -> int {
    if mode == ExportMode::Fast {
        sum_durations(segs)
    } else {
        sum_durations(segs) - fade * (segs.len() - 1)
    }
}

/// Where, on the merged timeline, the fade into segment `i` starts (`i >= 1`).
pub open spec fn offset_of(segs: Seq<ExportSegment>, fade: int, i: int) -> int
    decreases i,
{
    if i <= 1 {
        duration(segs[0]) - fade
    } else {
        offset_of(segs, fade, i - 1) + duration(segs[i - 1]) - fade
    }
}

pub open spec fn first_empty(segs: Seq<ExportSegment>, i: int) -> bool {
    0 <= i < segs.len() && duration(segs[i]) <= 0 && forall|j: int|
        0 <= j < i ==> duration(#[trigger] segs[j]) > 0
}

pub open spec fn first_too_short(segs: Seq<ExportSegment>, fade: int, i: int) -> bool {
    0 <= i < segs.len() && duration(segs[i]) <= fade && forall|j: int|
        0 <= j < i ==> duration(#[trigger] segs[j]) > fade
}

/// Whether the job uses a cross-fade chain, which needs every segment longer than the fade.
pub open spec fn is_chain(segs: Seq<ExportSegment>, preset: Seq<char>) -> bool {
    mode_of(preset) == ExportMode::Transition && segs.len() >= 2
}

/// The error that `plan` returns, if any.
pub open spec fn plan_error(segs: Seq<ExportSegment>, preset: Seq<char>, fade: int) -> Option<
    ExportError,
> {
    if segs.len() == 0 {
        Some(ExportError::NoSegments)
    } else if exists|i: int| first_empty(segs, i) {
        Some(ExportError::EmptySegment { index: (choose|i: int| first_empty(segs, i)) as usize })
    } else if sum_durations(segs) > MAX_TIMELINE_MS {
        Some(ExportError::TimelineTooLong)
    } else if is_chain(segs, preset) && exists|i: int| first_too_short(segs, fade, i) {
        Some(
            ExportError::FadeTooLong {
                index: (choose|i: int| first_too_short(segs, fade, i)) as usize,
            },
        )
    } else {
        None
    }
}

/// A job's plan. `offsets[k]` is where the fade into segment `k + 1` starts.
#[derive(Clone, Debug)]
pub struct ExportPlan {
    pub mode: ExportMode,
    pub high_quality: bool,
    pub fade_ms: u64,
    pub durations: Vec<u64>,
    pub total_ms: u64,
    pub offsets: Vec<u64>,
}

impl ExportPlan {
    /// The plan made for `segs` under `preset` and `fade`.
    pub open spec fn describes(self, segs: Seq<ExportSegment>, preset: Seq<char>, fade: int) -> bool {
        &&& self.mode == mode_of(preset)
        &&& self.high_quality == (preset == "high"@)
        &&& self.fade_ms == fade
        &&& self.durations@.len() == segs.len()
        &&& forall|i: int| 0 <= i < segs.len() ==> self.durations@[i] == duration(#[trigger] segs[i])
        &&& self.total_ms == total_of(segs, self.mode, fade)
        &&& self.offsets@.len() == (if self.mode == ExportMode::Transition { segs.len() - 1 } else { 0 })
        &&& forall|k: int|
            0 <= k < self.offsets@.len() ==> self.offsets@[k] == offset_of(segs, fade, k + 1)
    }

    /// What every plan satisfies: segments are non-empty, the output has a
    /// positive length within bounds, and fades start in increasing order.
    pub open spec fn wf(self) -> bool {
        &&& self.durations@.len() >= 1
        &&& forall|i: int| 0 <= i < self.durations@.len() ==> #[trigger] self.durations@[i] > 0
        &&& 0 < self.total_ms <= MAX_TIMELINE_MS
        &&& forall|k: int| 0 <= k < self.offsets@.len() ==> 0 < #[trigger] self.offsets@[k] < self.total_ms
        &&& forall|k: int| 0 < k < self.offsets@.len() ==> self.offsets@[k - 1] < #[trigger] self.offsets@[k]
    }
}

pub(crate) proof fn lemma_prefix_growth(segs: Seq<ExportSegment>, fade: int, i: int, j: int)
    requires
        fade >= -1,
        0 <= i <= j <= segs.len(),
        forall|k: int| 0 <= k < segs.len() ==> duration(#[trigger] segs[k]) > fade,
    ensures
        sum_prefix(segs, i) + (j - i) * (fade + 1) <= sum_prefix(segs, j),
    decreases j,
{
    if j > i {
        lemma_prefix_growth(segs, fade, i, j - 1);
        assert(duration(segs[j - 1]) > fade);
        assert(sum_prefix(segs, j) == sum_prefix(segs, j - 1) + duration(segs[j - 1]));
        assert((j - 1 - i) * (fade + 1) + (fade + 1) == (j - i) * (fade + 1)) by (nonlinear_arith);
    } else {
        assert((j - i) * (fade + 1) == 0) by (nonlinear_arith)
            requires
                j == i,
        ;
    }
}

proof fn lemma_offset_closed(segs: Seq<ExportSegment>, fade: int, k: int)
    requires
        1 <= k <= segs.len(),
    ensures
        offset_of(segs, fade, k) == sum_prefix(segs, k) - k * fade,
    decreases k,
{
    if k > 1 {
        lemma_offset_closed(segs, fade, k - 1);
        assert((k - 1) * fade + fade == k * fade) by (nonlinear_arith);
    } else {
        assert(sum_prefix(segs, 1) == sum_prefix(segs, 0) + duration(segs[0]));
    }
}

proof fn lemma_offset_range(segs: Seq<ExportSegment>, fade: int, k: int)
    requires
        segs.len() >= 2,
        fade >= 0,
        1 <= k <= segs.len() - 1,
        forall|j: int| 0 <= j < segs.len() ==> duration(#[trigger] segs[j]) > fade,
    ensures
        k <= offset_of(segs, fade, k),
        offset_of(segs, fade, k) < sum_prefix(segs, segs.len() as int) - fade * (segs.len() - 1),
        k >= 2 ==> offset_of(segs, fade, k - 1) < offset_of(segs, fade, k),
{
    let n = segs.len() as int;
    lemma_offset_closed(segs, fade, k);
    lemma_prefix_growth(segs, fade, 0, k);
    lemma_prefix_growth(segs, fade, k, n - 1);
    assert(duration(segs[n - 1]) > fade);
    assert(sum_prefix(segs, n) == sum_prefix(segs, n - 1) + duration(segs[n - 1]));
    assert(k * (fade + 1) - k * fade == k) by (nonlinear_arith);
    assert((n - 1 - k) * (fade + 1) + k * fade == (n - 1) * fade + (n - 1 - k)) by (nonlinear_arith);
    assert(fade * (n - 1) == (n - 1) * fade) by (nonlinear_arith);
    assert(0 * (fade + 1) == 0);
    if k >= 2 {
        assert(duration(segs[k - 1]) > fade);
    }
}

fn is_fast(preset: &String) -> (r: bool)
    ensures
        r == is_fast_preset(preset@),
{
    let p = preset.as_str();
    if p.unicode_len() == 0 {
        assert(p@ =~= Seq::<char>::empty());
        true
    } else {
        crate::scan::same_text(p, "fast")
    }
}

/// Index of the first segment that does not end after it starts.
fn find_empty(segments: &Vec<ExportSegment>) -> (r: Option<usize>)
    ensures
        match r {
            Some(i) => first_empty(segments@, i as int) && (choose|c: int| first_empty(segments@, c)) == i,
            None => forall|j: int| 0 <= j < segments@.len() ==> duration(#[trigger] segments@[j]) > 0,
        },
{
    let ghost segs = segments@;
    let n = segments.len();
    let mut i: usize = 0;
    while i < n
        invariant
            n == segs.len(),
            segs == segments@,
            i <= n,
            forall|j: int| 0 <= j < i ==> duration(#[trigger] segs[j]) > 0,
        decreases n - i,
    {
        if segments[i].end_ms <= segments[i].start_ms {
            proof {
                assert(first_empty(segs, i as int));
                let c = choose|c: int| first_empty(segs, c);
                if c < i {
                    assert(duration(segs[c]) > 0);
                } else if c > i {
                    assert(duration(segs[i as int]) > 0);
                }
            }
            return Some(i);
        }
        i = i + 1;
    }
    None
}

/// Index of the first segment not longer than `fade`.
fn find_too_short(segments: &Vec<ExportSegment>, fade: u64) -> (r: Option<usize>)
    requires
        forall|j: int| 0 <= j < segments@.len() ==> duration(#[trigger] segments@[j]) > 0,
    ensures
        match r {
            Some(i) => first_too_short(segments@, fade as int, i as int) && (choose|c: int|
                first_too_short(segments@, fade as int, c)) == i,
            None => forall|j: int|
                0 <= j < segments@.len() ==> duration(#[trigger] segments@[j]) > fade,
        },
{
    let ghost segs = segments@;
    let n = segments.len();
    let mut i: usize = 0;
    while i < n
        invariant
            n == segs.len(),
            segs == segments@,
            i <= n,
            forall|j: int| 0 <= j < n ==> duration(#[trigger] segs[j]) > 0,
            forall|j: int| 0 <= j < i ==> duration(#[trigger] segs[j]) > fade,
        decreases n - i,
    {
        if segments[i].end_ms - segments[i].start_ms <= fade {
            proof {
                assert(first_too_short(segs, fade as int, i as int));
                let c = choose|c: int| first_too_short(segs, fade as int, c);
                if c < i {
                    assert(duration(segs[c]) > fade);
                } else if c > i {
                    assert(duration(segs[i as int]) > fade);
                }
            }
            return Some(i);
        }
        i = i + 1;
    }
    None
}

/// The summed durations, exactly.
fn total_length(segments: &Vec<ExportSegment>) -> (r: u128)
    requires
        forall|j: int| 0 <= j < segments@.len() ==> duration(#[trigger] segments@[j]) > 0,
    ensures
        r == sum_durations(segments@),
{
    let ghost segs = segments@;
    let n = segments.len();
    let mut acc: u128 = 0;
    let mut i: usize = 0;
    while i < n
        invariant
            n == segs.len(),
            segs == segments@,
            i <= n,
            acc == sum_prefix(segs, i as int),
            acc <= i * 0xffff_ffff_ffff_ffffu128,
            forall|j: int| 0 <= j < n ==> duration(#[trigger] segs[j]) > 0,
        decreases n - i,
    {
        let d = segments[i].end_ms - segments[i].start_ms;
        acc = acc + d as u128;
        i = i + 1;
    }
    acc
}

fn durations_of(segments: &Vec<ExportSegment>) -> (r: Vec<u64>)
    requires
        forall|j: int| 0 <= j < segments@.len() ==> duration(#[trigger] segments@[j]) > 0,
    ensures
        r@.len() == segments@.len(),
        forall|j: int| 0 <= j < r@.len() ==> #[trigger] r@[j] == duration(segments@[j]),
{
    let ghost segs = segments@;
    let n = segments.len();
    let mut durations: Vec<u64> = Vec::new();
    let mut i: usize = 0;
    while i < n
        invariant
            n == segs.len(),
            segs == segments@,
            i <= n,
            forall|j: int| 0 <= j < n ==> duration(#[trigger] segs[j]) > 0,
            durations@.len() == i,
            forall|j: int| 0 <= j < i ==> durations@[j] == duration(#[trigger] segs[j]),
        decreases n - i,
    {
        durations.push(segments[i].end_ms - segments[i].start_ms);
        i = i + 1;
    }
    durations
}

/// The start of each fade of a chain of `segments`.
fn chain_offsets(
    segments: &Vec<ExportSegment>,
    durations: &Vec<u64>,
    fade: u64,
    total: u64,
) -> (r: Vec<u64>)
    requires
        segments@.len() >= 2,
        durations@.len() == segments@.len(),
        forall|j: int| 0 <= j < durations@.len() ==> durations@[j] == duration(#[trigger] segments@[j]),
        forall|j: int| 0 <= j < segments@.len() ==> duration(#[trigger] segments@[j]) > fade,
        total == sum_durations(segments@) - fade * (segments@.len() - 1),
    ensures
        r@.len() == segments@.len() - 1,
        forall|k: int| 0 <= k < r@.len() ==> r@[k] == offset_of(segments@, fade as int, k + 1),
        forall|k: int| 0 <= k < r@.len() ==> 0 < #[trigger] r@[k] < total,
        forall|k: int| 0 < k < r@.len() ==> r@[k - 1] < #[trigger] r@[k],
{
    let ghost segs = segments@;
    let n = durations.len();
    let mut offsets: Vec<u64> = Vec::new();
    proof {
        lemma_offset_range(segs, fade as int, 1);
    }
    let mut off: u64 = durations[0] - fade;
    let mut k: usize = 1;
    while k < n
        invariant
            n == segs.len(),
            n >= 2,
            segs == segments@,
            1 <= k <= n,
            total == sum_prefix(segs, n as int) - fade * (n - 1),
            forall|j: int| 0 <= j < n ==> duration(#[trigger] segs[j]) > fade,
            durations@.len() == n,
            forall|j: int| 0 <= j < n ==> durations@[j] == duration(#[trigger] segs[j]),
            k < n ==> off == offset_of(segs, fade as int, k as int),
            k < n ==> 0 < off < total,
            offsets@.len() == k - 1,
            forall|j: int| 0 <= j < k - 1 ==> offsets@[j] == offset_of(segs, fade as int, j + 1),
            forall|j: int| 0 <= j < k - 1 ==> 0 < #[trigger] offsets@[j] < total,
            forall|j: int| 0 < j < k - 1 ==> offsets@[j - 1] < #[trigger] offsets@[j],
            k >= 2 && k < n ==> offsets@[k - 2] < off,
        decreases n - k,
    {
        offsets.push(off);
        if k + 1 < n {
            proof {
                lemma_offset_range(segs, fade as int, k + 1);
                assert(durations@[k as int] == duration(segs[k as int]));
                assert(offset_of(segs, fade as int, k + 1) == offset_of(segs, fade as int, k as int)
                    + duration(segs[k as int]) - fade);
            }
            off = off + (durations[k] - fade);
        }
        k = k + 1;
    }
    offsets
}

/// Decides a job's mode once, checks its segments and computes the output
/// duration and the start of every cross-fade. Fails, before any work, with the
/// error `plan_error` names.
pub fn plan(segments: &Vec<ExportSegment>, options: &ExportOptions) -> (r: Result<
    ExportPlan,
    ExportError,
>)
    ensures
        match r {
            Ok(p) => plan_error(segments@, options.preset@, options.fade_ms as int) is None
                && p.describes(segments@, options.preset@, options.fade_ms as int) && p.wf(),
            Err(e) => plan_error(segments@, options.preset@, options.fade_ms as int) == Some(e),
        },
        r matches Ok(p) ==> (p.mode == ExportMode::Fast <==> is_fast_preset(options.preset@)),
        r matches Ok(p) ==> p.total_ms == (if p.mode == ExportMode::Fast {
            sum_durations(segments@)
        } else {
            sum_durations(segments@) - options.fade_ms * (segments@.len() - 1)
        }),
        r matches Ok(p) ==> (p.offsets@.len() > 0 ==> p.offsets@[0] == p.durations@[0]
            - options.fade_ms),
        r matches Ok(p) ==> forall|k: int|
            0 < k < p.offsets@.len() ==> #[trigger] p.offsets@[k] == p.offsets@[k - 1]
                + p.durations@[k] - options.fade_ms,
{
    let ghost segs = segments@;
    let fade = options.fade_ms;
    let n = segments.len();
    if n == 0 {
        return Err(ExportError::NoSegments);
    }
    if let Some(i) = find_empty(segments) {
        return Err(ExportError::EmptySegment { index: i });
    }
    let sum128 = total_length(segments);
    if sum128 > MAX_TIMELINE_MS as u128 {
        return Err(ExportError::TimelineTooLong);
    }
    let sum = sum128 as u64;
    let fast = is_fast(&options.preset);
    let high = crate::scan::same_text(options.preset.as_str(), "high");
    if !fast && n >= 2 {
        if let Some(i) = find_too_short(segments, fade) {
            return Err(ExportError::FadeTooLong { index: i });
        }
    }
    let durations = durations_of(segments);
    proof {
        lemma_prefix_growth(segs, 0, 0, n as int);
        assert forall|c: int| !first_empty(segs, c) by {
            if 0 <= c < n {
                assert(duration(segs[c]) > 0);
            }
        }
        if !fast && n >= 2 {
            assert forall|c: int| !first_too_short(segs, fade as int, c) by {
                if 0 <= c < n {
                    assert(duration(segs[c]) > fade);
                }
            }
        }
        assert(fade * (1 - 1) == 0);
    }
    if fast {
        let p = ExportPlan {
            mode: ExportMode::Fast,
            high_quality: high,
            fade_ms: fade,
            durations,
            total_ms: sum,
            offsets: Vec::new(),
        };
        assert(p.describes(segs, options.preset@, fade as int));
        assert(p.wf());
        return Ok(p);
    }
    if n == 1 {
        assert(fade * (segs.len() - 1) == 0);
        let p = ExportPlan {
            mode: ExportMode::Transition,
            high_quality: high,
            fade_ms: fade,
            durations,
            total_ms: sum,
            offsets: Vec::new(),
        };
        assert(p.mode == mode_of(options.preset@));
        assert(p.total_ms == total_of(segs, p.mode, fade as int));
        assert(p.describes(segs, options.preset@, fade as int));
        assert(p.wf());
        assert(plan_error(segs, options.preset@, fade as int) is None);
        return Ok(p);
    }
    proof {
        lemma_prefix_growth(segs, fade as int, 0, n as int);
        assert(fade * (n - 1) < n * (fade + 1)) by (nonlinear_arith)
            requires
                n >= 2,
        ;
    }
    let total = sum - fade * (n as u64 - 1);
    let offsets = chain_offsets(segments, &durations, fade, total);
    let p = ExportPlan {
        mode: ExportMode::Transition,
        high_quality: high,
        fade_ms: fade,
        durations,
        total_ms: total,
        offsets,
    };
    assert(p.describes(segs, options.preset@, fade as int));
    assert(p.wf());
    Ok(p)
}

} // verus!
