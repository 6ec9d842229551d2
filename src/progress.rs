//! Reading an elapsed time and a frame rate from one line of encoder output.
//!
//! The encoder reports its progress in lines such as
//! `frame=  120 fps=60 q=28.0 size=1024kB time=00:00:04.00 bitrate=2097.2kbits/s`.
//! Times come back in milliseconds and frame rates in thousandths of a frame
//! per second.
use vstd::prelude::*;
use crate::scan::{chars_of, decimal_thousandths, find, find_char, find_in, parse_decimal};

verus! {

/// A numeric field of a clock reading: a malformed one counts as zero.
pub open spec fn field_thousandths(t: Seq<char>) -> nat {
    match decimal_thousandths(t) {
        Some(v) => v,
        None => 0,
    }
}

/// Milliseconds in a clock reading `HH:MM:SS.mmm`: exactly three fields
/// separated by colons; `None` for any other number of fields.
pub open spec fn clock_ms(part: Seq<char>) -> Option<nat> {
    match find(part, seq![':']) {
        None => None,
        Some(c1) => {
            let tail = part.subrange(c1 + 1, part.len() as int);
            match find(tail, seq![':']) {
                None => None,
                Some(c2) => {
                    let last = tail.subrange(c2 + 1, tail.len() as int);
                    if find(last, seq![':']) is Some {
                        None
                    } else {
                        Some(field_thousandths(part.subrange(0, c1)) * 3600 + field_thousandths(
                            tail.subrange(0, c2),
                        ) * 60 + field_thousandths(last))
                    }
                },
            }
        },
    }
}

/// The text after the first occurrence of `key` in `line`, up to the next space;
/// `None` where `key` does not occur or no space follows it.
pub open spec fn field_after(line: Seq<char>, key: Seq<char>) -> Option<Seq<char>> {
    match find(line, key) {
        None => None,
        Some(k) => {
            let rest = line.subrange(k + key.len(), line.len() as int);
            match find(rest, seq![' ']) {
                None => None,
                Some(e) => Some(rest.subrange(0, e)),
            }
        },
    }
}

/// The frame rate of a progress line, in thousandths.
pub open spec fn fps_of(line: Seq<char>) -> Option<nat> {
    match field_after(line, "fps="@) {
        None => None,
        Some(t) => decimal_thousandths(t),
    }
}

/// What a progress line reports: the elapsed milliseconds and, where present,
/// the frame rate. A line is recognised only when it holds `time=` followed by
/// a three-field clock reading and a space.
pub open spec fn progress_of(line: Seq<char>) -> Option<(nat, Option<nat>)> {
    match field_after(line, "time="@) {
        None => None,
        Some(t) => match clock_ms(t) {
            None => None,
            Some(ms) => Some((ms, fps_of(line))),
        },
    }
}

/// The text after `key` up to the next space, as a range of `s`.
fn field_range(s: &Vec<char>, key: &str) -> (r: Option<(usize, usize)>)
    ensures
        match r {
            Some((lo, hi)) => lo <= hi <= s@.len() && field_after(s@, key@) == Some(
                s@.subrange(lo as int, hi as int),
            ),
            None => field_after(s@, key@) is None,
        },
{
    let k = chars_of(key);
    let n = s.len();
    match find_in(s, 0, n, &k) {
        None => {
            assert(s@.subrange(0, n as int) =~= s@);
            None
        },
        Some(p) => {
            assert(s@.subrange(0, n as int) =~= s@);
            let lo = p + k.len();
            let ghost rest = s@.subrange(lo as int, n as int);
            match find_char(s, lo, n, ' ') {
                None => None,
                Some(e) => {
                    assert(rest.subrange(0, e as int) =~= s@.subrange(lo as int, lo + e));
                    Some((lo, lo + e))
                },
            }
        },
    }
}

fn field_value(s: &Vec<char>, lo: usize, hi: usize) -> (r: u64)
    requires
        lo <= hi <= s@.len(),
    ensures
        r == field_thousandths(s@.subrange(lo as int, hi as int)),
        r < 1_000_000_000_000,
{
    match parse_decimal(s, lo, hi) {
        Some(v) => v,
        None => 0,
    }
}

fn clock_value(s: &Vec<char>, lo: usize, hi: usize) -> (r: Option<u64>)
    requires
        lo <= hi <= s@.len(),
    ensures
        match r {
            Some(v) => clock_ms(s@.subrange(lo as int, hi as int)) == Some(v as nat),
            None => clock_ms(s@.subrange(lo as int, hi as int)) is None,
        },
{
    let ghost part = s@.subrange(lo as int, hi as int);
    match find_char(s, lo, hi, ':') {
        None => None,
        Some(c1) => {
            let ghost tail = part.subrange(c1 + 1, part.len() as int);
            assert(tail =~= s@.subrange(lo + c1 + 1, hi as int));
            let a = lo + c1 + 1;
            match find_char(s, a, hi, ':') {
                None => None,
                Some(c2) => {
                    let ghost last = tail.subrange(c2 + 1, tail.len() as int);
                    assert(last =~= s@.subrange(a + c2 + 1, hi as int));
                    let b = a + c2 + 1;
                    if find_char(s, b, hi, ':').is_some() {
                        return None;
                    }
                    assert(part.subrange(0, c1 as int) =~= s@.subrange(lo as int, lo + c1));
                    assert(tail.subrange(0, c2 as int) =~= s@.subrange(a as int, a + c2));
                    let h = field_value(s, lo, lo + c1);
                    let m = field_value(s, a, a + c2);
                    let sec = field_value(s, b, hi);
                    Some(h * 3600 + m * 60 + sec)
                },
            }
        },
    }
}

/// Reads a progress line: `Some((elapsed_ms, fps))` exactly as `progress_of` says,
/// with the frame rate in thousandths.
pub fn parse_ffmpeg_progress(line: &str) -> (r: Option<(u64, Option<u64>)>)
    ensures
        match r {
            Some((ms, fps)) => progress_of(line@) == Some(
                (
                    ms as nat,
                    match fps {
                        Some(f) => Some(f as nat),
                        None => None,
                    },
                ),
            ),
            None => progress_of(line@) is None,
        },
{
    let s = chars_of(line);
    match field_range(&s, "time=") {
        None => None,
        Some((lo, hi)) => match clock_value(&s, lo, hi) {
            None => None,
            Some(ms) => {
                let fps = match field_range(&s, "fps=") {
                    None => None,
                    Some((flo, fhi)) => parse_decimal(&s, flo, fhi),
                };
                Some((ms, fps))
            },
        },
    }
}

} // verus!
