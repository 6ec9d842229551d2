//! Thumbnails, preview clips and upload compression: what to ask of the
//! encoder, and what to make of its output.
use vstd::prelude::*;
use crate::command::{push_lit, push_owned, texts};
use crate::scan::same_text;
use crate::text::{decimal_text, push_decimal, seconds_string, seconds_text};

verus! {

/// Grabs one frame, scaled to 320 pixels wide, at `timestamp` seconds (from
/// the start when the timestamp is `0`).
pub open spec fn thumbnail_args(video: Seq<char>, output: Seq<char>, timestamp: Seq<char>) -> Seq<Seq<char>> {
    let seek: Seq<Seq<char>> = if timestamp == "0"@ {
        seq![]
    } else {
        seq!["-ss"@, timestamp]
    };
    seek + seq![
        "-i"@,
        video,
        "-frames:v"@,
        "1"@,
        "-vf"@,
        "scale=320:-1"@,
        "-q:v"@,
        "5"@,
        "-y"@,
        output,
    ]
}

/// Arguments that grab a thumbnail of `video` into `output` at `timestamp`.
pub fn thumbnail_command(video: &str, output: &str, timestamp: &str) -> (r: Vec<String>)
    ensures
        texts(r@) == thumbnail_args(video@, output@, timestamp@),
{
    let mut v: Vec<String> = Vec::new();
    if !same_text(timestamp, "0") {
        push_lit(&mut v, "-ss");
        push_lit(&mut v, timestamp);
    }
    push_lit(&mut v, "-i");
    push_lit(&mut v, video);
    push_lit(&mut v, "-frames:v");
    push_lit(&mut v, "1");
    push_lit(&mut v, "-vf");
    push_lit(&mut v, "scale=320:-1");
    push_lit(&mut v, "-q:v");
    push_lit(&mut v, "5");
    push_lit(&mut v, "-y");
    push_lit(&mut v, output);
    assert(texts(v@) =~= thumbnail_args(video@, output@, timestamp@));
    v
}

/// The time at which attempt `attempt` (from 0) grabs a thumbnail: one second
/// in, then, for videos shorter than that, the start; there is no third attempt.
pub fn thumbnail_time(attempt: usize) -> (r: Option<&'static str>)
    ensures
        attempt == 0 ==> (r matches Some(t) && t@ == "1"@),
        attempt == 1 ==> (r matches Some(t) && t@ == "0"@),
        attempt >= 2 ==> r is None,
{
    if attempt == 0 {
        Some("1")
    } else if attempt == 1 {
        Some("0")
    } else {
        None
    }
}

/// What the standard base64 alphabet, with padding, makes of some bytes.
pub uninterp spec fn base64_of(b: Seq<u8>) -> Seq<char>;

/// Longest input handed to the base64 encoder, whose output length must fit in `usize`.
pub const MAX_ENCODED_INPUT: usize = usize::MAX / 4 * 3 - 3;

/// Relies on `base64::engine::general_purpose::STANDARD.encode`: standard
/// alphabet with padding. It panics only when the output length overflows,
/// which the bound on the input rules out.
#[verifier::external_body]
fn base64_standard(bytes: &[u8]) -> (r: String)
    requires
        bytes@.len() <= MAX_ENCODED_INPUT,
    ensures
        r@ == base64_of(bytes@),
{
    <base64::engine::GeneralPurpose as base64::Engine>::encode(&base64::engine::general_purpose::STANDARD, bytes)
}

/// Bytes in standard base64 with padding.
pub fn encode_base64(bytes: &[u8]) -> (r: String)
    requires
        bytes@.len() <= MAX_ENCODED_INPUT,
    ensures
        r@ == base64_of(bytes@),
{
    base64_standard(bytes)
}

/// A `data:` address for a JPEG image whose base64 text is `encoded`.
pub fn jpeg_data_uri_of(encoded: &str) -> (r: String)
    ensures
        r@ == "data:image/jpeg;base64,"@ + encoded@,
{
    let mut s = String::from_str("data:image/jpeg;base64,");
    s.append(encoded);
    s
}

/// A JPEG image as a `data:` address.
pub fn jpeg_data_uri(image: &[u8]) -> (r: String)
    requires
        image@.len() <= MAX_ENCODED_INPUT,
    ensures
        r@ == "data:image/jpeg;base64,"@ + base64_of(image@),
{
    let encoded = base64_standard(image);
    jpeg_data_uri_of(encoded.as_str())
}

/// Length of a preview clip when none is asked for.
pub const DEFAULT_CLIP_MS: u64 = 5000;

/// Length of a preview clip: as asked, or the default when zero is asked.
pub open spec fn clip_length(requested_ms: nat) -> nat {
    if requested_ms == 0 {
        DEFAULT_CLIP_MS as nat
    } else {
        requested_ms
    }
}

/// Re-encodes the first `length_ms` of `path` into `output`, quickly and widely playable.
pub open spec fn clip_args(path: Seq<char>, length_ms: nat, output: Seq<char>) -> Seq<Seq<char>> {
    seq![
        "-y"@,
        "-ss"@,
        "0"@,
        "-i"@,
        path,
        "-t"@,
        seconds_text(clip_length(length_ms)),
        "-c:v"@,
        "libx264"@,
        "-preset"@,
        "ultrafast"@,
        "-crf"@,
        "23"@,
        "-c:a"@,
        "aac"@,
        "-b:a"@,
        "128k"@,
        "-movflags"@,
        "+faststart"@,
        output,
    ]
}

/// Arguments that cut a preview clip of `requested_ms` (0 for the default) from `path`.
pub fn clip_command(path: &str, requested_ms: u64, output: &str) -> (r: Vec<String>)
    ensures
        texts(r@) == clip_args(path@, requested_ms as nat, output@),
{
    let length = if requested_ms == 0 {
        DEFAULT_CLIP_MS
    } else {
        requested_ms
    };
    let mut v: Vec<String> = Vec::new();
    push_lit(&mut v, "-y");
    push_lit(&mut v, "-ss");
    push_lit(&mut v, "0");
    push_lit(&mut v, "-i");
    push_lit(&mut v, path);
    push_lit(&mut v, "-t");
    push_owned(&mut v, seconds_string(length));
    push_lit(&mut v, "-c:v");
    push_lit(&mut v, "libx264");
    push_lit(&mut v, "-preset");
    push_lit(&mut v, "ultrafast");
    push_lit(&mut v, "-crf");
    push_lit(&mut v, "23");
    push_lit(&mut v, "-c:a");
    push_lit(&mut v, "aac");
    push_lit(&mut v, "-b:a");
    push_lit(&mut v, "128k");
    push_lit(&mut v, "-movflags");
    push_lit(&mut v, "+faststart");
    push_lit(&mut v, output);
    assert(texts(v@) =~= clip_args(path@, requested_ms as nat, output@));
    v
}

/// Largest upload sent as it is (500 MiB); larger files are compressed first.
pub const MAX_UPLOAD_BYTES: u64 = 500 * 1024 * 1024;

pub fn needs_compression(file_size: u64) -> (r: bool)
    ensures
        r == (file_size > MAX_UPLOAD_BYTES),
{
    file_size > MAX_UPLOAD_BYTES
}

/// Audio bitrate of a compressed upload, in kbit/s.
pub const UPLOAD_AUDIO_KBPS: u32 = 96;

/// Lowest video bitrate of a compressed upload, in kbit/s.
pub const MIN_VIDEO_KBPS: u32 = 500;

/// Size aimed at, in kbit, for a compressed upload: 28 MiB.
pub const TARGET_KBITS: u64 = 28 * 1024 * 8;

/// Video bitrate, in kbit/s, that brings a video of `duration_ms` near the
/// target size: the total rate left after the audio, and never below the floor.
/// A zero duration gives the largest rate.
pub open spec fn video_kbps(duration_ms: nat) -> nat {
    let total: nat = if duration_ms == 0 {
        u32::MAX as nat
    } else {
        let t: nat = (TARGET_KBITS as nat * 1000) / duration_ms;
        if t > u32::MAX {
            u32::MAX as nat
        } else {
            t
        }
    };
    let video: nat = if total > UPLOAD_AUDIO_KBPS {
        (total - UPLOAD_AUDIO_KBPS) as nat
    } else {
        0
    };
    if video > MIN_VIDEO_KBPS {
        video
    } else {
        MIN_VIDEO_KBPS as nat
    }
}

pub fn video_bitrate(duration_ms: u64) -> (r: u32)
    ensures
        r == video_kbps(duration_ms as nat),
{
    let total: u32 = if duration_ms == 0 {
        u32::MAX
    } else {
        let t = TARGET_KBITS * 1000 / duration_ms;
        if t > u32::MAX as u64 {
            u32::MAX
        } else {
            t as u32
        }
    };
    let video = if total > UPLOAD_AUDIO_KBPS {
        total - UPLOAD_AUDIO_KBPS
    } else {
        0
    };
    if video > MIN_VIDEO_KBPS {
        video
    } else {
        MIN_VIDEO_KBPS
    }
}

/// Re-encodes `input` into `output` at `video_kbps`, with a peak of twice that
/// and a buffer of four times that.
pub open spec fn compress_args(input: Seq<char>, output: Seq<char>, video_kbps: nat) -> Seq<Seq<char>> {
    seq![
        "-y"@,
        "-i"@,
        input,
        "-c:v"@,
        "libx264"@,
        "-preset"@,
        "fast"@,
        "-b:v"@,
        decimal_text(video_kbps) + "k"@,
        "-maxrate"@,
        decimal_text(video_kbps * 2) + "k"@,
        "-bufsize"@,
        decimal_text(video_kbps * 4) + "k"@,
        "-c:a"@,
        "aac"@,
        "-b:a"@,
        decimal_text(UPLOAD_AUDIO_KBPS as nat) + "k"@,
        "-movflags"@,
        "+faststart"@,
        output,
    ]
}

fn kbps_text(rate: u64) -> (r: String)
    ensures
        r@ == decimal_text(rate as nat) + "k"@,
{
    let mut s = String::new();
    push_decimal(&mut s, rate);
    s.append("k");
    assert(s@ =~= decimal_text(rate as nat) + "k"@);
    s
}

/// Arguments that compress `input` into `output` at `video_kbps`.
pub fn compress_command(input: &str, output: &str, video_kbps: u32) -> (r: Vec<String>)
    ensures
        texts(r@) == compress_args(input@, output@, video_kbps as nat),
{
    let rate = video_kbps as u64;
    let mut v: Vec<String> = Vec::new();
    push_lit(&mut v, "-y");
    push_lit(&mut v, "-i");
    push_lit(&mut v, input);
    push_lit(&mut v, "-c:v");
    push_lit(&mut v, "libx264");
    push_lit(&mut v, "-preset");
    push_lit(&mut v, "fast");
    push_lit(&mut v, "-b:v");
    push_owned(&mut v, kbps_text(rate));
    push_lit(&mut v, "-maxrate");
    push_owned(&mut v, kbps_text(rate * 2));
    push_lit(&mut v, "-bufsize");
    push_owned(&mut v, kbps_text(rate * 4));
    push_lit(&mut v, "-c:a");
    push_lit(&mut v, "aac");
    push_lit(&mut v, "-b:a");
    push_owned(&mut v, kbps_text(UPLOAD_AUDIO_KBPS as u64));
    push_lit(&mut v, "-movflags");
    push_lit(&mut v, "+faststart");
    push_lit(&mut v, output);
    assert(texts(v@) =~= compress_args(input@, output@, video_kbps as nat));
    v
}

} // verus!
