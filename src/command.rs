//! Argument vectors for the encoder, one per kind of run.
use vstd::prelude::*;
use crate::plan::{duration, ExportSegment};
use crate::text::{seconds_string, seconds_text};

verus! {

/// The texts of a list of arguments.
pub open spec fn texts(v: Seq<String>) -> Seq<Seq<char>> {
    v.map_values(|s: String| s@)
}

/// Where the audio of a segment starts.
pub open spec fn audio_start(s: ExportSegment) -> nat {
    match s.audio_start_ms {
        Some(a) => a as nat,
        None => s.start_ms as nat,
    }
}

/// How long the audio of a segment lasts; a range that ends before it starts lasts zero.
pub open spec fn audio_length(s: ExportSegment) -> nat {
    match s.audio_end_ms {
        Some(e) => if e > audio_start(s) {
            (e - audio_start(s)) as nat
        } else {
            0
        },
        None => duration(s) as nat,
    }
}

/// How much a stream-copy cut keeps: with a separate audio source, the shorter
/// of the two ranges.
pub open spec fn copy_length(s: ExportSegment) -> nat {
    if s.audio_source_path is Some && audio_length(s) < duration(s) {
        audio_length(s)
    } else {
        duration(s) as nat
    }
}

/// The inputs of a cut: the video source from the segment's start and, where
/// set, the audio source from the audio start.
pub open spec fn source_inputs(s: ExportSegment) -> Seq<Seq<char>> {
    let video = seq!["-ss"@, seconds_text(s.start_ms as nat), "-i"@, s.source_path@];
    match s.audio_source_path {
        Some(a) => video + seq!["-ss"@, seconds_text(audio_start(s)), "-i"@, a@],
        None => video,
    }
}

/// With a separate audio source: video from the first input, audio from the second.
pub open spec fn audio_maps(s: ExportSegment) -> Seq<Seq<char>> {
    match s.audio_source_path {
        Some(_) => seq!["-map"@, "0:v:0"@, "-map"@, "1:a:0"@],
        None => seq![],
    }
}

/// Cuts a segment into `out` without re-encoding.
pub open spec fn copy_cut_args(s: ExportSegment, out: Seq<char>) -> Seq<Seq<char>> {
    seq!["-y"@] + source_inputs(s) + seq!["-t"@, seconds_text(copy_length(s))] + audio_maps(s)
        + seq!["-c"@, "copy"@, "-avoid_negative_ts"@, "make_zero"@, out]
}

/// Quality constant of the intermediate clips: 16, below (better than) every
/// final constant (`crf_text`: 18 or 23), since each clip is encoded once more
/// and encoding it at the final quality would compound the loss.
pub open spec fn intermediate_crf() -> Seq<char> {
    "16"@
}

/// Re-encodes a segment into `out` at a fixed frame rate and at the
/// intermediate quality constant.
pub open spec fn intermediate_args(s: ExportSegment, out: Seq<char>) -> Seq<Seq<char>> {
    seq!["-y"@] + source_inputs(s) + seq!["-t"@, seconds_text(duration(s) as nat)] + audio_maps(
        s,
    ) + seq![
        "-c:v"@,
        "libx264"@,
        "-preset"@,
        "fast"@,
        "-crf"@,
        intermediate_crf(),
        "-c:a"@,
        "aac"@,
        "-b:a"@,
        "192k"@,
        "-r"@,
        "30"@,
        out,
    ]
}

/// The quality constant of the final encode.
pub open spec fn crf_text(high: bool) -> Seq<char> {
    if high {
        "18"@
    } else {
        "23"@
    }
}

/// Settings of the final encode.
pub open spec fn final_encoding(high: bool) -> Seq<Seq<char>> {
    seq![
        "-c:v"@,
        "libx264"@,
        "-preset"@,
        "medium"@,
        "-crf"@,
        crf_text(high),
        "-c:a"@,
        "aac"@,
        "-b:a"@,
        "192k"@,
        "-movflags"@,
        "+faststart"@,
    ]
}

/// Encodes a lone segment straight to `output`, reporting progress.
pub open spec fn single_encode_args(s: ExportSegment, output: Seq<char>, high: bool) -> Seq<
    Seq<char>,
> {
    seq!["-y"@, "-progress"@, "pipe:2"@] + source_inputs(s) + seq![
        "-t"@,
        seconds_text(duration(s) as nat),
    ] + audio_maps(s) + final_encoding(high) + seq![output]
}

/// Joins the files listed in `list`, in their order, into `output` without re-encoding.
pub open spec fn concat_args(list: Seq<char>, output: Seq<char>) -> Seq<Seq<char>> {
    seq![
        "-y"@,
        "-f"@,
        "concat"@,
        "-safe"@,
        "0"@,
        "-i"@,
        list,
        "-c"@,
        "copy"@,
        output,
    ]
}

/// `-i file` for each file, in order.
pub open spec fn input_args(files: Seq<Seq<char>>) -> Seq<Seq<char>>
    decreases files.len(),
{
    if files.len() == 0 {
        seq![]
    } else {
        input_args(files.drop_last()) + seq!["-i"@, files.last()]
    }
}

/// Runs `graph` over all `files` at once and encodes its two outputs to `output`.
pub open spec fn assembly_args(
    files: Seq<Seq<char>>,
    graph: Seq<char>,
    output: Seq<char>,
    high: bool,
) -> Seq<Seq<char>> {
    seq!["-y"@, "-progress"@, "pipe:2"@] + input_args(files) + seq![
        "-filter_complex"@,
        graph,
        "-map"@,
        "[vout]"@,
        "-map"@,
        "[aout]"@,
    ] + final_encoding(high) + seq![output]
}

/// One `file '<path>'` line per file, in order.
pub open spec fn concat_list(files: Seq<Seq<char>>) -> Seq<char>
    decreases files.len(),
{
    if files.len() == 0 {
        seq![]
    } else {
        concat_list(files.drop_last()) + "file '"@ + files.last() + "'\n"@
    }
}

pub(crate) fn push_lit(v: &mut Vec<String>, s: &str)
    ensures
        texts(final(v)@) == texts(old(v)@).push(s@),
{
    v.push(String::from_str(s));
    assert(texts(v@) =~= texts(old(v)@).push(s@));
}

pub(crate) fn push_owned(v: &mut Vec<String>, s: String)
    ensures
        texts(final(v)@) == texts(old(v)@).push(s@),
{
    let ghost t = s@;
    v.push(s);
    assert(texts(v@) =~= texts(old(v)@).push(t));
}

fn push_source_inputs(v: &mut Vec<String>, s: &ExportSegment)
    ensures
        texts(final(v)@) == texts(old(v)@) + source_inputs(*s),
{
    push_lit(v, "-ss");
    push_owned(v, seconds_string(s.start_ms));
    push_lit(v, "-i");
    push_owned(v, s.source_path.clone());
    match &s.audio_source_path {
        Some(a) => {
            let start = match s.audio_start_ms {
                Some(x) => x,
                None => s.start_ms,
            };
            push_lit(v, "-ss");
            push_owned(v, seconds_string(start));
            push_lit(v, "-i");
            push_owned(v, a.clone());
        },
        None => {},
    }
    assert(texts(v@) =~= texts(old(v)@) + source_inputs(*s));
}

fn push_audio_maps(v: &mut Vec<String>, s: &ExportSegment)
    ensures
        texts(final(v)@) == texts(old(v)@) + audio_maps(*s),
{
    if s.audio_source_path.is_some() {
        push_lit(v, "-map");
        push_lit(v, "0:v:0");
        push_lit(v, "-map");
        push_lit(v, "1:a:0");
    }
    assert(texts(v@) =~= texts(old(v)@) + audio_maps(*s));
}

fn push_final_encoding(v: &mut Vec<String>, high: bool)
    ensures
        texts(final(v)@) == texts(old(v)@) + final_encoding(high),
{
    push_lit(v, "-c:v");
    push_lit(v, "libx264");
    push_lit(v, "-preset");
    push_lit(v, "medium");
    push_lit(v, "-crf");
    push_lit(v, if high { "18" } else { "23" });
    push_lit(v, "-c:a");
    push_lit(v, "aac");
    push_lit(v, "-b:a");
    push_lit(v, "192k");
    push_lit(v, "-movflags");
    push_lit(v, "+faststart");
    assert(texts(v@) =~= texts(old(v)@) + final_encoding(high));
}

/// Arguments that cut `s` into `out` by stream copy.
pub fn copy_cut_command(s: &ExportSegment, out: &String) -> (r: Vec<String>)
    requires
        s.start_ms < s.end_ms,
    ensures
        texts(r@) == copy_cut_args(*s, out@),
{
    let mut v: Vec<String> = Vec::new();
    push_lit(&mut v, "-y");
    push_source_inputs(&mut v, s);
    let d = s.end_ms - s.start_ms;
    let len = match &s.audio_source_path {
        Some(_) => {
            let start = match s.audio_start_ms {
                Some(x) => x,
                None => s.start_ms,
            };
            let alen = match s.audio_end_ms {
                Some(e) => if e > start {
                    e - start
                } else {
                    0
                },
                None => d,
            };
            if alen < d {
                alen
            } else {
                d
            }
        },
        None => d,
    };
    push_lit(&mut v, "-t");
    push_owned(&mut v, seconds_string(len));
    push_audio_maps(&mut v, s);
    push_lit(&mut v, "-c");
    push_lit(&mut v, "copy");
    push_lit(&mut v, "-avoid_negative_ts");
    push_lit(&mut v, "make_zero");
    push_owned(&mut v, out.clone());
    assert(texts(v@) =~= copy_cut_args(*s, out@));
    v
}

/// Arguments that re-encode `s` into the intermediate clip `out`.
pub fn intermediate_command(s: &ExportSegment, out: &String) -> (r: Vec<String>)
    requires
        s.start_ms < s.end_ms,
    ensures
        texts(r@) == intermediate_args(*s, out@),
{
    let mut v: Vec<String> = Vec::new();
    push_lit(&mut v, "-y");
    push_source_inputs(&mut v, s);
    push_lit(&mut v, "-t");
    push_owned(&mut v, seconds_string(s.end_ms - s.start_ms));
    push_audio_maps(&mut v, s);
    push_lit(&mut v, "-c:v");
    push_lit(&mut v, "libx264");
    push_lit(&mut v, "-preset");
    push_lit(&mut v, "fast");
    push_lit(&mut v, "-crf");
    push_lit(&mut v, "16");
    push_lit(&mut v, "-c:a");
    push_lit(&mut v, "aac");
    push_lit(&mut v, "-b:a");
    push_lit(&mut v, "192k");
    push_lit(&mut v, "-r");
    push_lit(&mut v, "30");
    push_owned(&mut v, out.clone());
    assert(texts(v@) =~= intermediate_args(*s, out@));
    v
}

/// Arguments that encode the lone segment `s` straight to `output`.
pub fn single_encode_command(s: &ExportSegment, output: &String, high: bool) -> (r: Vec<String>)
    requires
        s.start_ms < s.end_ms,
    ensures
        texts(r@) == single_encode_args(*s, output@, high),
{
    let mut v: Vec<String> = Vec::new();
    push_lit(&mut v, "-y");
    push_lit(&mut v, "-progress");
    push_lit(&mut v, "pipe:2");
    push_source_inputs(&mut v, s);
    push_lit(&mut v, "-t");
    push_owned(&mut v, seconds_string(s.end_ms - s.start_ms));
    push_audio_maps(&mut v, s);
    push_final_encoding(&mut v, high);
    push_owned(&mut v, output.clone());
    assert(texts(v@) =~= single_encode_args(*s, output@, high));
    v
}

/// Arguments that concatenate the files listed in `list` into `output`.
pub fn concat_command(list: &String, output: &String) -> (r: Vec<String>)
    ensures
        texts(r@) == concat_args(list@, output@),
{
    let mut v: Vec<String> = Vec::new();
    push_lit(&mut v, "-y");
    push_lit(&mut v, "-f");
    push_lit(&mut v, "concat");
    push_lit(&mut v, "-safe");
    push_lit(&mut v, "0");
    push_lit(&mut v, "-i");
    push_owned(&mut v, list.clone());
    push_lit(&mut v, "-c");
    push_lit(&mut v, "copy");
    push_owned(&mut v, output.clone());
    assert(texts(v@) =~= concat_args(list@, output@));
    v
}

/// Arguments of the final encode that runs `graph` over `files`.
pub fn assembly_command(files: &Vec<String>, graph: String, output: &String, high: bool) -> (r: Vec<
    String,
>)
    ensures
        texts(r@) == assembly_args(texts(files@), graph@, output@, high),
{
    let mut v: Vec<String> = Vec::new();
    push_lit(&mut v, "-y");
    push_lit(&mut v, "-progress");
    push_lit(&mut v, "pipe:2");
    let ghost head = texts(v@);
    let mut i: usize = 0;
    while i < files.len()
        invariant
            i <= files@.len(),
            texts(v@) == head + input_args(texts(files@.subrange(0, i as int))),
        decreases files@.len() - i,
    {
        push_lit(&mut v, "-i");
        push_owned(&mut v, files[i].clone());
        proof {
            let pre = texts(files@.subrange(0, i as int));
            let post = texts(files@.subrange(0, i + 1));
            assert(post.drop_last() =~= pre);
            assert(post.last() == files@[i as int]@);
            assert(texts(v@) =~= head + input_args(post));
        }
        i = i + 1;
    }
    assert(files@.subrange(0, files@.len() as int) =~= files@);
    let ghost g = graph@;
    push_lit(&mut v, "-filter_complex");
    push_owned(&mut v, graph);
    push_lit(&mut v, "-map");
    push_lit(&mut v, "[vout]");
    push_lit(&mut v, "-map");
    push_lit(&mut v, "[aout]");
    push_final_encoding(&mut v, high);
    push_owned(&mut v, output.clone());
    assert(texts(v@) =~= assembly_args(texts(files@), g, output@, high));
    v
}

/// The list that the concat run reads: one `file '<path>'` line per file.
pub fn concat_list_text(files: &Vec<String>) -> (r: String)
    ensures
        r@ == concat_list(texts(files@)),
{
    let mut s = String::new();
    let mut i: usize = 0;
    while i < files.len()
        invariant
            i <= files@.len(),
            s@ == concat_list(texts(files@.subrange(0, i as int))),
        decreases files@.len() - i,
    {
        s.append("file '");
        s.append(files[i].as_str());
        s.append("'\n");
        proof {
            let pre = texts(files@.subrange(0, i as int));
            let post = texts(files@.subrange(0, i + 1));
            assert(post.drop_last() =~= pre);
            assert(post.last() == files@[i as int]@);
        }
        i = i + 1;
    }
    assert(files@.subrange(0, files@.len() as int) =~= files@);
    s
}

/// The intermediate clips are encoded at a better quality (a lower constant)
/// than the final output, whichever the preset.
pub proof fn lemma_intermediate_quality_above_final(high: bool)
    ensures
        intermediate_crf() != crf_text(high),
        intermediate_crf() == seq!['1', '6'],
        crf_text(high) == seq!['1', '8'] || crf_text(high) == seq!['2', '3'],
{
    reveal_strlit("16");
    reveal_strlit("18");
    reveal_strlit("23");
    assert(intermediate_crf() =~= seq!['1', '6']);
    assert("18"@ =~= seq!['1', '8']);
    assert("23"@ =~= seq!['2', '3']);
    assert(seq!['1', '6'][1] != seq!['1', '8'][1]);
    assert(seq!['1', '6'][0] != seq!['2', '3'][0]);
}

} // verus!
