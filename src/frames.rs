//! Choosing the moments at which frames are taken from a video: every
//! keyframe, one frame a second across long gaps, then an even thinning to a
//! maximum count. Times are in milliseconds.
use vstd::prelude::*;
use vstd::seq_lib::{to_multiset_build, to_multiset_insert};

verus! {

/// Gaps longer than this (5 s) are filled.
pub const MAX_GAP_MS: u64 = 5000;

/// No two chosen moments are closer than this (1 s), except across a sort of unordered keyframes.
pub const MIN_FRAME_DISTANCE_MS: u64 = 1000;

/// Largest number of frames taken by default.
pub const DEFAULT_MAX_FRAMES: u32 = 60;

/// `from, from + 1 s, ...` while below `until`.
pub open spec fn fill(from: int, until: int) -> Seq<int>
    decreases until - from + 1000,
{
    if from < until {
        seq![from] + fill(from + 1000, until)
    } else {
        seq![]
    }
}

/// `t` followed by `k`, unless `k` comes within a second of the last moment.
pub open spec fn keep(t: Seq<int>, k: int) -> Seq<int> {
    if t.len() == 0 || k >= t.last() + 1000 {
        t.push(k)
    } else {
        t
    }
}

/// Moments chosen after the first `i` keyframes, and the last keyframe seen.
pub open spec fn scan(kf: Seq<u64>, i: int) -> (Seq<int>, int)
    decreases i,
{
    if i <= 0 {
        (if kf.len() == 0 || kf[0] > 1000 {
            seq![0int]
        } else {
            seq![]
        }, 0)
    } else {
        let (t, prev) = scan(kf, i - 1);
        let k = kf[i - 1] as int;
        let filled = if k > prev + 5000 {
            t + fill(prev + 1000, k - 1000)
        } else {
            t
        };
        (keep(filled, k), k)
    }
}

/// The moments, before sorting: keyframes, gap fills, a fill to the end and a
/// last moment half a second before the end.
pub open spec fn raw_targets(kf: Seq<u64>, duration: int) -> Seq<int> {
    let (t, prev) = scan(kf, kf.len() as int);
    let filled = if duration > prev + 5000 {
        t + fill(prev + 1000, duration - 1000)
    } else {
        t
    };
    if duration > prev + 2000 {
        let last = if duration - 500 > prev + 1000 {
            duration - 500
        } else {
            prev + 1000
        };
        keep(filled, last)
    } else {
        filled
    }
}

pub open spec fn sorted(s: Seq<u64>) -> bool {
    forall|i: int, j: int| 0 <= i < j < s.len() ==> s[i] <= s[j]
}

pub open spec fn as_ints(s: Seq<u64>) -> Seq<int> {
    s.map_values(|x: u64| x as int)
}

/// Appends the fill from `from` to `until`.
fn push_fill(t: &mut Vec<u64>, from: u64, until: u64)
    requires
        until <= 2_000_000_000_000,
    ensures
        as_ints(final(t)@) == as_ints(old(t)@) + fill(from as int, until as int),
{
    let mut x = from;
    assert(as_ints(t@) + fill(x as int, until as int) =~= as_ints(old(t)@) + fill(
        from as int,
        until as int,
    ));
    while x < until
        invariant
            until <= 2_000_000_000_000,
            as_ints(t@) + fill(x as int, until as int) == as_ints(old(t)@) + fill(
                from as int,
                until as int,
            ),
        decreases until + 1000 - x,
    {
        let ghost before = t@;
        t.push(x);
        assert(as_ints(t@) =~= as_ints(before).push(x as int));
        assert(fill(x as int, until as int) == seq![x as int] + fill(x + 1000, until as int));
        assert(as_ints(t@) + fill(x + 1000, until as int) =~= as_ints(before) + fill(
            x as int,
            until as int,
        ));
        x = x + 1000;
    }
    assert(fill(x as int, until as int) =~= Seq::<int>::empty());
    assert(as_ints(t@) =~= as_ints(t@) + fill(x as int, until as int));
}

/// Appends `k` unless it comes within a second of the last moment.
fn push_keep(t: &mut Vec<u64>, k: u64)
    ensures
        as_ints(final(t)@) == keep(as_ints(old(t)@), k as int),
{
    let n = t.len();
    if n == 0 || (k >= 1000 && k - 1000 >= t[n - 1]) {
        t.push(k);
        assert(as_ints(t@) =~= as_ints(old(t)@).push(k as int));
    }
}

/// Largest time, in milliseconds, that keyframes and durations may have.
pub const MAX_MEDIA_MS: u64 = 1_000_000_000_000;

/// The moments at which to take frames of a video of `duration` ms whose
/// keyframes are at `keyframe_timestamps`: `raw_targets` in ascending order.
pub fn calculate_target_timestamps(keyframe_timestamps: &Vec<u64>, duration: u64) -> (r: Vec<u64>)
    requires
        forall|i: int| 0 <= i < keyframe_timestamps@.len() ==> #[trigger] keyframe_timestamps@[i] <= MAX_MEDIA_MS,
        duration <= MAX_MEDIA_MS,
    ensures
        sorted(r@),
        as_ints(r@).to_multiset() == raw_targets(keyframe_timestamps@, duration as int).to_multiset(),
{
    let kf = keyframe_timestamps;
    let n = kf.len();
    let mut t: Vec<u64> = Vec::new();
    if n == 0 || kf[0] > 1000 {
        t.push(0);
    }
    assert(as_ints(t@) =~= scan(kf@, 0).0);
    let mut prev: u64 = 0;
    let mut i: usize = 0;
    while i < n
        invariant
            n == kf@.len(),
            i <= n,
            forall|j: int| 0 <= j < kf@.len() ==> #[trigger] kf@[j] <= MAX_MEDIA_MS,
            prev <= MAX_MEDIA_MS,
            as_ints(t@) == scan(kf@, i as int).0,
            prev == scan(kf@, i as int).1,
        decreases n - i,
    {
        let k = kf[i];
        if k > prev + 5000 {
            push_fill(&mut t, prev + 1000, k - 1000);
        }
        push_keep(&mut t, k);
        prev = k;
        i = i + 1;
    }
    if duration > prev + 5000 {
        push_fill(&mut t, prev + 1000, duration - 1000);
    }
    if duration > prev + 2000 {
        let last = if duration - 500 > prev + 1000 {
            duration - 500
        } else {
            prev + 1000
        };
        push_keep(&mut t, last);
    }
    sort_times(t)
}

/// `v` in ascending order.
pub fn sort_times(v: Vec<u64>) -> (r: Vec<u64>)
    ensures
        sorted(r@),
        as_ints(r@).to_multiset() == as_ints(v@).to_multiset(),
{
    let mut r: Vec<u64> = Vec::new();
    let mut i: usize = 0;
    assert(as_ints(r@) =~= as_ints(v@.subrange(0, 0)));
    while i < v.len()
        invariant
            i <= v@.len(),
            sorted(r@),
            as_ints(r@).to_multiset() == as_ints(v@.subrange(0, i as int)).to_multiset(),
        decreases v@.len() - i,
    {
        let x = v[i];
        let mut pos: usize = 0;
        while pos < r.len() && r[pos] <= x
            invariant
                pos <= r@.len(),
                forall|j: int| 0 <= j < pos ==> r@[j] <= x,
            decreases r@.len() - pos,
        {
            pos = pos + 1;
        }
        let ghost before = r@;
        r.insert(pos, x);
        proof {
            assert(r@ == before.insert(pos as int, x));
            assert(as_ints(r@) =~= as_ints(before).insert(pos as int, x as int));
            to_multiset_insert(as_ints(before), pos as int, x as int);
            assert(as_ints(v@.subrange(0, i + 1)) =~= as_ints(v@.subrange(0, i as int)).push(x as int));
            to_multiset_build(as_ints(v@.subrange(0, i as int)), x as int);
            assert forall|a: int, b: int| 0 <= a < b < r@.len() implies r@[a] <= r@[b] by {
                if b < pos {
                    assert(r@[a] == before[a] && r@[b] == before[b]);
                } else if b == pos {
                    assert(r@[a] == before[a]);
                } else if a < pos {
                    assert(r@[a] == before[a] && r@[b] == before[b - 1]);
                } else if a == pos {
                    assert(r@[b] == before[b - 1]);
                } else {
                    assert(r@[a] == before[a - 1] && r@[b] == before[b - 1]);
                }
            }
        }
        i = i + 1;
    }
    assert(v@.subrange(0, v@.len() as int) =~= v@);
    r
}

/// `q / d` rounded to the nearest integer, halves upward.
pub open spec fn round_div(q: nat, d: nat) -> nat {
    q / d + (if 2 * (q % d) >= d {
        1nat
    } else {
        0nat
    })
}

/// Element `i` of `ts` thinned evenly to `max` elements: the first, the last,
/// and between them the elements nearest to equal steps.
pub open spec fn pick(ts: Seq<u64>, max: nat, i: int) -> u64 {
    let len = ts.len();
    if i == 0 {
        ts[0]
    } else if i == max - 1 {
        ts[len - 1]
    } else {
        let idx = round_div((i * (len - 1)) as nat, (max - 1) as nat);
        ts[if idx < len - 1 { idx as int } else { len - 1 }]
    }
}

/// At most `max` of `timestamps`, evenly spread and keeping the first and the
/// last; all of them when they are no more than `max`.
pub fn subsample_timestamps(timestamps: &Vec<u64>, max: usize) -> (r: Vec<u64>)
    ensures
        timestamps@.len() <= max ==> r@ == timestamps@,
        timestamps@.len() > max && max == 0 ==> r@.len() == 0,
        timestamps@.len() > max && max > 0 ==> r@.len() == max && forall|i: int|
            0 <= i < max ==> #[trigger] r@[i] == pick(timestamps@, max as nat, i),
{
    let len = timestamps.len();
    if len <= max {
        return timestamps.clone();
    }
    let mut result: Vec<u64> = Vec::new();
    if max == 0 {
        return result;
    }
    result.push(timestamps[0]);
    if max == 1 {
        return result;
    }
    let d = (max - 1) as u128;
    let mut i: usize = 1;
    while i < max - 1
        invariant
            1 <= i <= max - 1,
            len == timestamps@.len(),
            len > max,
            max >= 2,
            d == max - 1,
            result@.len() == i,
            forall|j: int| 0 <= j < i ==> #[trigger] result@[j] == pick(timestamps@, max as nat, j),
        decreases max - 1 - i,
    {
        proof {
            let a = i as int;
            let b = (len - 1) as int;
            assert(a * b <= 0xffff_ffff_ffff_ffff * 0xffff_ffff_ffff_ffff) by (nonlinear_arith)
                requires
                    0 <= a <= 0xffff_ffff_ffff_ffff,
                    0 <= b <= 0xffff_ffff_ffff_ffff,
            ;
        }
        let q: u128 = (i as u128) * ((len - 1) as u128);
        let idx: u128 = q / d + if 2 * (q % d) >= d {
            1
        } else {
            0
        };
        let k: usize = if idx < (len - 1) as u128 {
            idx as usize
        } else {
            len - 1
        };
        result.push(timestamps[k]);
        i = i + 1;
    }
    result.push(timestamps[len - 1]);
    result
}

} // verus!
