//! Asking the prober about a video, and reading its answers.
use vstd::prelude::*;
use crate::command::{push_lit, push_owned, texts};
use crate::scan::{chars_of, decimal_thousandths, find_char, parse_decimal};
use crate::server::{parse_u64, u64_text};
use crate::text::{padded_text, push_padded, seconds_string, seconds_text};

verus! {

pub open spec fn is_space(c: char) -> bool {
    c == ' ' || c == '\t' || c == '\n' || c == '\r' || c == '\x0B' || c == '\x0C'
}

pub open spec fn trim_start(s: Seq<char>) -> Seq<char>
    decreases s.len(),
{
    if s.len() > 0 && is_space(s[0]) {
        trim_start(s.drop_first())
    } else {
        s
    }
}

pub open spec fn trim_end(s: Seq<char>) -> Seq<char>
    decreases s.len(),
{
    if s.len() > 0 && is_space(s.last()) {
        trim_end(s.drop_last())
    } else {
        s
    }
}

/// `s` without leading and trailing ASCII white space.
pub open spec fn trim(s: Seq<char>) -> Seq<char> {
    trim_end(trim_start(s))
}

fn space(c: char) -> (r: bool)
    ensures
        r == is_space(c),
{
    c == ' ' || c == '\t' || c == '\n' || c == '\r' || c == '\x0B' || c == '\x0C'
}

/// The range of `s[lo..hi]` left after trimming white space.
fn trim_range(s: &Vec<char>, lo: usize, hi: usize) -> (r: (usize, usize))
    requires
        lo <= hi <= s@.len(),
    ensures
        lo <= r.0 <= r.1 <= hi,
        s@.subrange(r.0 as int, r.1 as int) == trim(s@.subrange(lo as int, hi as int)),
{
    let mut a = lo;
    while a < hi && space(s[a])
        invariant
            lo <= a <= hi,
            hi <= s@.len(),
            trim_start(s@.subrange(lo as int, hi as int)) == trim_start(s@.subrange(a as int, hi as int)),
        decreases hi - a,
    {
        assert(s@.subrange(a as int, hi as int).drop_first() =~= s@.subrange(a + 1, hi as int));
        a = a + 1;
    }
    let mut b = hi;
    assert(s@.subrange(a as int, b as int) =~= trim_start(s@.subrange(lo as int, hi as int)));
    while b > a && space(s[b - 1])
        invariant
            a <= b <= hi,
            hi <= s@.len(),
            trim(s@.subrange(lo as int, hi as int)) == trim_end(s@.subrange(a as int, b as int)),
        decreases b - a,
    {
        assert(s@.subrange(a as int, b as int).drop_last() =~= s@.subrange(a as int, b - 1));
        b = b - 1;
    }
    (a, b)
}

/// The length, in milliseconds, that the prober printed for a video: a plain
/// decimal number of seconds, with white space around it.
pub fn parse_duration_ms(output: &str) -> (r: Option<u64>)
    ensures
        match r {
            Some(v) => decimal_thousandths(trim(output@)) == Some(v as nat),
            None => decimal_thousandths(trim(output@)) is None,
        },
{
    let s = chars_of(output);
    let (a, b) = trim_range(&s, 0, s.len());
    assert(s@.subrange(0, s@.len() as int) =~= s@);
    parse_decimal(&s, a, b)
}

/// What the dimensions probe's answer lacked.
#[derive(Clone, Copy, Debug, PartialEq, Eq, Structural)]
pub enum DimensionsError {
    /// It was not two fields joined by `x`.
    Format,
    /// The width was not a `u32`.
    Width,
    /// The height was not a `u32`.
    Height,
}

/// A `u32` as its `FromStr` reads it.
pub open spec fn u32_text(t: Seq<char>) -> Option<u32> {
    match u64_text(t) {
        Some(v) => if v <= u32::MAX {
            Some(v as u32)
        } else {
            None
        },
        None => None,
    }
}

/// Width and height from the prober's `WIDTHxHEIGHT` answer.
pub open spec fn dimensions_of(output: Seq<char>) -> Result<(u32, u32), DimensionsError> {
    let t = trim(output);
    match crate::scan::find(t, seq!['x']) {
        None => Err(DimensionsError::Format),
        Some(p) => {
            let w = t.subrange(0, p);
            let h = t.subrange(p + 1, t.len() as int);
            if crate::scan::find(h, seq!['x']) is Some {
                Err(DimensionsError::Format)
            } else {
                match u32_text(w) {
                    None => Err(DimensionsError::Width),
                    Some(wv) => match u32_text(h) {
                        None => Err(DimensionsError::Height),
                        Some(hv) => Ok((wv, hv)),
                    },
                }
            }
        },
    }
}

fn parse_u32(s: &Vec<char>, lo: usize, hi: usize) -> (r: Option<u32>)
    requires
        lo <= hi <= s@.len(),
    ensures
        r == u32_text(s@.subrange(lo as int, hi as int)),
{
    match parse_u64(s, lo, hi) {
        Some(v) => if v <= u32::MAX as u64 {
            Some(v as u32)
        } else {
            None
        },
        None => None,
    }
}

/// Reads the prober's `WIDTHxHEIGHT` answer, as `dimensions_of` says.
pub fn parse_dimensions(output: &str) -> (r: Result<(u32, u32), DimensionsError>)
    ensures
        r == dimensions_of(output@),
{
    let s = chars_of(output);
    let (a, b) = trim_range(&s, 0, s.len());
    assert(s@.subrange(0, s@.len() as int) =~= s@);
    let ghost t = s@.subrange(a as int, b as int);
    match find_char(&s, a, b, 'x') {
        None => Err(DimensionsError::Format),
        Some(p) => {
            assert(t.subrange(0, p as int) =~= s@.subrange(a as int, a + p));
            assert(t.subrange(p + 1, t.len() as int) =~= s@.subrange(a + p + 1, b as int));
            if find_char(&s, a + p + 1, b, 'x').is_some() {
                return Err(DimensionsError::Format);
            }
            match parse_u32(&s, a, a + p) {
                None => Err(DimensionsError::Width),
                Some(w) => match parse_u32(&s, a + p + 1, b) {
                    None => Err(DimensionsError::Height),
                    Some(h) => Ok((w, h)),
                },
            }
        },
    }
}

/// The time of the keyframe that a `pts_time,pict_type` line describes: its
/// first field, when the second is `I` and the first is a plain decimal.
pub open spec fn keyframe_of(line: Seq<char>) -> Option<nat> {
    match crate::scan::find(line, seq![',']) {
        None => None,
        Some(c) => {
            let rest = line.subrange(c + 1, line.len() as int);
            let second = match crate::scan::find(rest, seq![',']) {
                None => rest,
                Some(d) => rest.subrange(0, d),
            };
            if trim(second) == seq!['I'] {
                decimal_thousandths(trim(line.subrange(0, c)))
            } else {
                None
            }
        },
    }
}

/// Reads one line of the keyframe probe's answer.
pub fn keyframe_time(line: &str) -> (r: Option<u64>)
    ensures
        match r {
            Some(v) => keyframe_of(line@) == Some(v as nat) && v < 1_000_000_000_000,
            None => keyframe_of(line@) is None,
        },
{
    let s = chars_of(line);
    let n = s.len();
    assert(s@.subrange(0, n as int) =~= s@);
    match find_char(&s, 0, n, ',') {
        None => None,
        Some(c) => {
            let ghost rest = s@.subrange(c + 1, n as int);
            let end = match find_char(&s, c + 1, n, ',') {
                None => n,
                Some(d) => {
                    assert(rest.subrange(0, d as int) =~= s@.subrange(c + 1, c + 1 + d));
                    c + 1 + d
                },
            };
            let (a, b) = trim_range(&s, c + 1, end);
            if !(b - a == 1 && s[a] == 'I') {
                proof {
                    if s@.subrange(a as int, b as int) == seq!['I'] {
                        assert(s@.subrange(a as int, b as int).len() == seq!['I'].len());
                        assert(s@.subrange(a as int, b as int)[0] == s@[a as int]);
                    }
                }
                return None;
            }
            assert(s@.subrange(a as int, b as int) =~= seq!['I']);
            let (x, y) = trim_range(&s, 0, c);
            parse_decimal(&s, x, y)
        },
    }
}

/// The keyframe times of the lines that describe keyframes, in order.
pub open spec fn keyframes_in(lines: Seq<String>) -> Seq<u64>
    decreases lines.len(),
{
    if lines.len() == 0 {
        seq![]
    } else {
        let earlier = keyframes_in(lines.drop_last());
        match keyframe_of(lines.last()@) {
            Some(t) => earlier.push(t as u64),
            None => earlier,
        }
    }
}

/// Keyframe times with a start at 0 when the first is missing or later than half a second.
pub open spec fn with_start(ts: Seq<u64>) -> Seq<u64> {
    if ts.len() == 0 || ts[0] > 500 {
        seq![0u64] + ts
    } else {
        ts
    }
}

/// The keyframe times in the lines of the keyframe probe's answer, starting at 0.
pub fn keyframe_times(lines: &Vec<String>) -> (r: Vec<u64>)
    ensures
        r@ == with_start(keyframes_in(lines@)),
        forall|i: int| 0 <= i < r@.len() ==> #[trigger] r@[i] < 1_000_000_000_000,
{
    let mut ts: Vec<u64> = Vec::new();
    let mut i: usize = 0;
    while i < lines.len()
        invariant
            i <= lines@.len(),
            ts@ == keyframes_in(lines@.subrange(0, i as int)),
            forall|j: int| 0 <= j < ts@.len() ==> #[trigger] ts@[j] < 1_000_000_000_000,
        decreases lines@.len() - i,
    {
        assert(lines@.subrange(0, i + 1).drop_last() =~= lines@.subrange(0, i as int));
        match keyframe_time(lines[i].as_str()) {
            Some(t) => ts.push(t),
            None => {},
        }
        i = i + 1;
    }
    assert(lines@.subrange(0, lines@.len() as int) =~= lines@);
    if ts.len() == 0 || ts[0] > 500 {
        ts.insert(0, 0);
        assert(ts@ =~= with_start(keyframes_in(lines@)));
    }
    ts
}

/// Asks for the length of `path` in seconds.
pub open spec fn duration_probe_args(path: Seq<char>) -> Seq<Seq<char>> {
    seq!["-v"@, "error"@, "-show_entries"@, "format=duration"@, "-of"@, "default=noprint_wrappers=1:nokey=1"@, path]
}

/// Asks for the time and picture type of every frame of the first video stream of `path`.
pub open spec fn keyframe_probe_args(path: Seq<char>) -> Seq<Seq<char>> {
    seq!["-v"@, "error"@, "-select_streams"@, "v:0"@, "-show_entries"@, "frame=pts_time,pict_type"@, "-of"@, "csv=print_section=0"@, path]
}

/// Asks for the width and height of the first video stream of `path`, as `WIDTHxHEIGHT`.
pub open spec fn dimensions_probe_args(path: Seq<char>) -> Seq<Seq<char>> {
    seq!["-v"@, "error"@, "-select_streams"@, "v:0"@, "-show_entries"@, "stream=width,height"@, "-of"@, "csv=s=x:p=0"@, path]
}

pub fn duration_probe_command(path: &str) -> (r: Vec<String>)
    ensures
        texts(r@) == duration_probe_args(path@),
{
    let mut v: Vec<String> = Vec::new();
    push_lit(&mut v, "-v");
    push_lit(&mut v, "error");
    push_lit(&mut v, "-show_entries");
    push_lit(&mut v, "format=duration");
    push_lit(&mut v, "-of");
    push_lit(&mut v, "default=noprint_wrappers=1:nokey=1");
    push_lit(&mut v, path);
    assert(texts(v@) =~= duration_probe_args(path@));
    v
}

pub fn keyframe_probe_command(path: &str) -> (r: Vec<String>)
    ensures
        texts(r@) == keyframe_probe_args(path@),
{
    let mut v: Vec<String> = Vec::new();
    push_lit(&mut v, "-v");
    push_lit(&mut v, "error");
    push_lit(&mut v, "-select_streams");
    push_lit(&mut v, "v:0");
    push_lit(&mut v, "-show_entries");
    push_lit(&mut v, "frame=pts_time,pict_type");
    push_lit(&mut v, "-of");
    push_lit(&mut v, "csv=print_section=0");
    push_lit(&mut v, path);
    assert(texts(v@) =~= keyframe_probe_args(path@));
    v
}

pub fn dimensions_probe_command(path: &str) -> (r: Vec<String>)
    ensures
        texts(r@) == dimensions_probe_args(path@),
{
    let mut v: Vec<String> = Vec::new();
    push_lit(&mut v, "-v");
    push_lit(&mut v, "error");
    push_lit(&mut v, "-select_streams");
    push_lit(&mut v, "v:0");
    push_lit(&mut v, "-show_entries");
    push_lit(&mut v, "stream=width,height");
    push_lit(&mut v, "-of");
    push_lit(&mut v, "csv=s=x:p=0");
    push_lit(&mut v, path);
    assert(texts(v@) =~= dimensions_probe_args(path@));
    v
}

/// Takes the one frame of `path` at `at_ms` into `output`, at high JPEG quality.
pub open spec fn frame_args(path: Seq<char>, at_ms: nat, output: Seq<char>) -> Seq<Seq<char>> {
    seq!["-y"@, "-ss"@, seconds_text(at_ms), "-i"@, path, "-vframes"@, "1"@, "-q:v"@, "2"@, output]
}

pub fn frame_command(path: &str, at_ms: u64, output: &str) -> (r: Vec<String>)
    ensures
        texts(r@) == frame_args(path@, at_ms as nat, output@),
{
    let mut v: Vec<String> = Vec::new();
    push_lit(&mut v, "-y");
    push_lit(&mut v, "-ss");
    push_owned(&mut v, seconds_string(at_ms));
    push_lit(&mut v, "-i");
    push_lit(&mut v, path);
    push_lit(&mut v, "-vframes");
    push_lit(&mut v, "1");
    push_lit(&mut v, "-q:v");
    push_lit(&mut v, "2");
    push_lit(&mut v, output);
    assert(texts(v@) =~= frame_args(path@, at_ms as nat, output@));
    v
}

/// The file name of extracted frame `i`.
pub fn frame_file_name(i: usize) -> (r: String)
    ensures
        r@ == "frame_"@ + padded_text(i as nat, 4) + ".jpg"@,
{
    let mut s = String::from_str("frame_");
    push_padded(&mut s, i as u64, 4);
    s.append(".jpg");
    s
}

} // verus!
