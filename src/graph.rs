//! The filter graph that joins intermediate clips by cross-fades.
//!
//! For `n` clips there are `n - 1` transitions. Transition `i` (from 1) fades
//! the running result into clip `i`; the video and the audio chains run in
//! parallel with labels `v01, v02, ...` and `a01, a02, ...`, and the last
//! transition of each writes `vout` or `aout`.
use vstd::prelude::*;
use crate::text::{decimal_text, padded_text, push_decimal, push_padded, push_seconds, seconds_text};

verus! {

/// The label that transition `i` of `n - 1` writes, for track `t` (`v` or `a`).
pub open spec fn out_label(t: char, i: nat, n: nat) -> Seq<char> {
    if i + 1 == n {
        seq![t] + "out"@
    } else {
        seq![t] + padded_text(i, 2)
    }
}

/// The label that transition `i` reads its running result from.
pub open spec fn in_label(t: char, i: nat, n: nat) -> Seq<char> {
    if i <= 1 {
        "0:"@ + seq![t]
    } else {
        out_label(t, (i - 1) as nat, n)
    }
}

/// The head shared by both tracks: `[in][i:t]`.
pub open spec fn link_inputs(t: char, i: nat, n: nat) -> Seq<char> {
    "["@ + in_label(t, i, n) + "]["@ + decimal_text(i) + ":"@ + seq![t] + "]"@
}

/// Video transition `i`, starting at `offset` and lasting `fade` milliseconds.
pub open spec fn video_link(i: nat, n: nat, fade: nat, offset: nat) -> Seq<char> {
    link_inputs('v', i, n) + "xfade=transition=fade:duration="@ + seconds_text(fade)
        + ":offset="@ + seconds_text(offset) + "["@ + out_label('v', i, n) + "]"@
}

/// Audio transition `i`, lasting `fade` milliseconds.
pub open spec fn audio_link(i: nat, n: nat, fade: nat) -> Seq<char> {
    link_inputs('a', i, n) + "acrossfade=d="@ + seconds_text(fade) + ":c1=tri:c2=tri["@
        + out_label('a', i, n) + "]"@
}

/// Video transitions `1..=k`, separated by `;`; `offsets[i - 1]` is where transition `i` starts.
pub open spec fn video_chain(k: nat, n: nat, fade: nat, offsets: Seq<u64>) -> Seq<char>
    decreases k,
{
    if k <= 1 {
        video_link(1, n, fade, offsets[0] as nat)
    } else {
        video_chain((k - 1) as nat, n, fade, offsets) + ";"@ + video_link(
            k,
            n,
            fade,
            offsets[k - 1] as nat,
        )
    }
}

/// Audio transitions `1..=k`, separated by `;`.
pub open spec fn audio_chain(k: nat, n: nat, fade: nat) -> Seq<char>
    decreases k,
{
    if k <= 1 {
        audio_link(1, n, fade)
    } else {
        audio_chain((k - 1) as nat, n, fade) + ";"@ + audio_link(k, n, fade)
    }
}

/// The whole graph for `offsets.len() + 1` clips: the video chain, then the audio chain.
pub open spec fn filter_graph(fade: nat, offsets: Seq<u64>) -> Seq<char> {
    let n = offsets.len() + 1;
    video_chain(offsets.len(), n, fade, offsets) + ";"@ + audio_chain(offsets.len(), n, fade)
}

fn push_out_label(s: &mut String, t: &str, i: usize, m: usize)
    requires
        t@.len() == 1,
    ensures
        final(s)@ == old(s)@ + out_label(t@[0], i as nat, (m + 1) as nat),
{
    s.append(t);
    if i == m {
        s.append("out");
    } else {
        push_padded(s, i as u64, 2);
    }
    assert(t@ =~= seq![t@[0]]);
    assert(final(s)@ =~= old(s)@ + out_label(t@[0], i as nat, (m + 1) as nat));
}

fn push_link_inputs(s: &mut String, t: &str, i: usize, m: usize)
    requires
        t@.len() == 1,
        1 <= i <= m,
    ensures
        final(s)@ == old(s)@ + link_inputs(t@[0], i as nat, (m + 1) as nat),
{
    assert(t@ =~= seq![t@[0]]);
    s.append("[");
    if i == 1 {
        s.append("0:");
        s.append(t);
    } else {
        push_out_label(s, t, i - 1, m);
    }
    s.append("][");
    push_decimal(s, i as u64);
    s.append(":");
    s.append(t);
    s.append("]");
    assert(final(s)@ =~= old(s)@ + link_inputs(t@[0], i as nat, (m + 1) as nat));
}

fn push_video_link(s: &mut String, k: usize, m: usize, fade_ms: u64, offset: u64)
    requires
        1 <= k <= m,
    ensures
        final(s)@ == old(s)@ + video_link(k as nat, (m + 1) as nat, fade_ms as nat, offset as nat),
{
    proof {
        reveal_strlit("v");
    }
    push_link_inputs(s, "v", k, m);
    s.append("xfade=transition=fade:duration=");
    push_seconds(s, fade_ms);
    s.append(":offset=");
    push_seconds(s, offset);
    s.append("[");
    push_out_label(s, "v", k, m);
    s.append("]");
    assert(final(s)@ =~= old(s)@ + video_link(k as nat, (m + 1) as nat, fade_ms as nat, offset as nat));
}

fn push_audio_link(s: &mut String, k: usize, m: usize, fade_ms: u64)
    requires
        1 <= k <= m,
    ensures
        final(s)@ == old(s)@ + audio_link(k as nat, (m + 1) as nat, fade_ms as nat),
{
    proof {
        reveal_strlit("a");
    }
    push_link_inputs(s, "a", k, m);
    s.append("acrossfade=d=");
    push_seconds(s, fade_ms);
    s.append(":c1=tri:c2=tri[");
    push_out_label(s, "a", k, m);
    s.append("]");
    assert(final(s)@ =~= old(s)@ + audio_link(k as nat, (m + 1) as nat, fade_ms as nat));
}

/// Builds the filter graph that joins `offsets.len() + 1` clips, fading for
/// `fade_ms` at each offset.
pub fn build_filter_graph(offsets: &Vec<u64>, fade_ms: u64) -> (r: String)
    requires
        offsets@.len() >= 1,
    ensures
        r@ == filter_graph(fade_ms as nat, offsets@),
{
    let m = offsets.len();
    let ghost n = m + 1;
    let mut vs = String::new();
    let mut j: usize = 0;
    while j < m
        invariant
            n == m + 1,
            j <= m,
            m == offsets@.len(),
            j == 0 ==> vs@ == Seq::<char>::empty(),
            j > 0 ==> vs@ == video_chain(j as nat, n as nat, fade_ms as nat, offsets@),
        decreases m - j,
    {
        let k = j + 1;
        let ghost before = vs@;
        if k > 1 {
            vs.append(";");
        }
        push_video_link(&mut vs, k, m, fade_ms, offsets[j]);
        proof {
            let link = video_link(k as nat, n as nat, fade_ms as nat, offsets@[j as int] as nat);
            if k > 1 {
                assert(vs@ =~= before + ";"@ + link);
            } else {
                assert(vs@ =~= link);
            }
        }
        j = j + 1;
    }
    let mut au = String::new();
    j = 0;
    while j < m
        invariant
            n == m + 1,
            j <= m,
            m == offsets@.len(),
            j == 0 ==> au@ == Seq::<char>::empty(),
            j > 0 ==> au@ == audio_chain(j as nat, n as nat, fade_ms as nat),
        decreases m - j,
    {
        let k = j + 1;
        let ghost before = au@;
        if k > 1 {
            au.append(";");
        }
        push_audio_link(&mut au, k, m, fade_ms);
        proof {
            let link = audio_link(k as nat, n as nat, fade_ms as nat);
            if k > 1 {
                assert(au@ =~= before + ";"@ + link);
            } else {
                assert(au@ =~= link);
            }
        }
        j = j + 1;
    }
    vs.append(";");
    vs.append(au.as_str());
    vs
}

} // verus!
