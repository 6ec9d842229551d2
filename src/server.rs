//! Pure parts of the local media server: byte ranges, media types, video
//! identifiers and the table of registered videos.
use vstd::prelude::*;
use crate::scan::{after_last, all_digits, chars_of, digits_value, find, find_char, is_digit, same_text, text_after_last};
use crate::text::{decimal_text, digit_char, push_decimal};
use vstd::string::StringSliceAdditionalSpecFns;

verus! {

/// The value of a text that `u64`'s `FromStr` accepts: an optional `+`, then
/// one or more decimal digits denoting at most `u64::MAX`.
pub open spec fn u64_text(t: Seq<char>) -> Option<u64> {
    let d = if t.len() > 0 && t[0] == '+' {
        t.drop_first()
    } else {
        t
    };
    if d.len() > 0 && all_digits(d) && digits_value(d) <= u64::MAX {
        Some(digits_value(d) as u64)
    } else {
        None
    }
}

/// The inclusive byte range that a `Range` header asks of a file of `size`
/// bytes: `bytes=start-end` or `bytes=start-` (to the last byte), and only when
/// `start <= end < size`.
pub open spec fn range_of(h: Seq<char>, size: nat) -> Option<(u64, u64)> {
    if !(h.len() >= 6 && h.subrange(0, 6) == "bytes="@) {
        None
    } else {
        let r = h.subrange(6, h.len() as int);
        match find(r, seq!['-']) {
            None => None,
            Some(p) => {
                let a = r.subrange(0, p);
                let b = r.subrange(p + 1, r.len() as int);
                if find(b, seq!['-']) is Some {
                    None
                } else {
                    match u64_text(a) {
                        None => None,
                        Some(start) => {
                            let end = if b.len() == 0 {
                                if size == 0 {
                                    None
                                } else {
                                    Some((size - 1) as u64)
                                }
                            } else {
                                u64_text(b)
                            };
                            match end {
                                None => None,
                                Some(e) => if start <= e && e < size {
                                    Some((start, e))
                                } else {
                                    None
                                },
                            }
                        },
                    }
                }
            },
        }
    }
}

proof fn lemma_digits_grow(t: Seq<char>, i: int)
    requires
        0 <= i <= t.len(),
    ensures
        digits_value(t.subrange(0, i)) <= digits_value(t),
    decreases t.len() - i,
{
    if i < t.len() {
        lemma_digits_grow(t, i + 1);
        assert(t.subrange(0, i + 1).drop_last() =~= t.subrange(0, i));
    } else {
        assert(t.subrange(0, i) =~= t);
    }
}

/// Reads `s[lo..hi]` as `u64`'s `FromStr` does.
pub fn parse_u64(s: &Vec<char>, lo: usize, hi: usize) -> (r: Option<u64>)
    requires
        lo <= hi <= s@.len(),
    ensures
        r == u64_text(s@.subrange(lo as int, hi as int)),
{
    let ghost t = s@.subrange(lo as int, hi as int);
    let mut k = lo;
    if k < hi && s[k] == '+' {
        k = k + 1;
    }
    let ghost d = s@.subrange(k as int, hi as int);
    assert(t.len() > 0 ==> t[0] == s@[lo as int]);
    assert(d =~= (if t.len() > 0 && t[0] == '+' { t.drop_first() } else { t }));
    if k == hi {
        return None;
    }
    let start = k;
    let mut acc: u64 = 0;
    while k < hi
        invariant
            start <= k <= hi,
            hi <= s@.len(),
            d == s@.subrange(start as int, hi as int),
            t == s@.subrange(lo as int, hi as int),
            d == (if t.len() > 0 && t[0] == '+' { t.drop_first() } else { t }),
            all_digits(s@.subrange(start as int, k as int)),
            acc == digits_value(s@.subrange(start as int, k as int)),
        decreases hi - k,
    {
        let c = s[k];
        if !('0' <= c && c <= '9') {
            assert(d[k - start] == c);
            return None;
        }
        let dv = (c as u32 - '0' as u32) as u64;
        proof {
            assert(s@.subrange(start as int, k + 1).drop_last() =~= s@.subrange(start as int, k as int));
            assert(d.subrange(0, k + 1 - start) =~= s@.subrange(start as int, k + 1));
        }
        if acc > (u64::MAX - dv) / 10 {
            proof {
                assert(acc * 10 + dv > u64::MAX) by (nonlinear_arith)
                    requires
                        acc > (u64::MAX - dv) / 10,
                        dv <= 9,
                ;
                lemma_digits_grow(d, k + 1 - start);
            }
            return None;
        }
        proof {
            assert(acc * 10 + dv <= u64::MAX) by (nonlinear_arith)
                requires
                    acc <= (u64::MAX - dv) / 10,
                    dv <= 9,
            ;
        }
        acc = acc * 10 + dv;
        k = k + 1;
        assert(all_digits(s@.subrange(start as int, k as int))) by {
            assert forall|j: int| 0 <= j < k - start implies is_digit(
                #[trigger] s@.subrange(start as int, k as int)[j],
            ) by {
                if j < k - 1 - start {
                    assert(s@.subrange(start as int, k - 1)[j] == s@[start + j]);
                }
            }
        }
    }
    assert(s@.subrange(start as int, k as int) =~= d);
    Some(acc)
}

/// Parses a `Range` header (`bytes=start-end` or `bytes=start-`) against a file
/// of `file_size` bytes, as `range_of` says.
pub fn parse_range(range_header: &str, file_size: u64) -> (r: Option<(u64, u64)>)
    ensures
        r == range_of(range_header@, file_size as nat),
{
    let s = chars_of(range_header);
    let prefix = chars_of("bytes=");
    proof {
        reveal_strlit("bytes=");
    }
    let n = s.len();
    if n < 6 {
        return None;
    }
    let mut i: usize = 0;
    while i < 6
        invariant
            i <= 6,
            n == s@.len(),
            n >= 6,
            prefix@ == "bytes="@,
            prefix@.len() == 6,
            s@ == range_header@,
            forall|j: int| 0 <= j < i ==> s@[j] == prefix@[j],
        decreases 6 - i,
    {
        if s[i] != prefix[i] {
            assert(s@.subrange(0, 6)[i as int] != "bytes="@[i as int]);
            return None;
        }
        i = i + 1;
    }
    assert(s@.subrange(0, 6) =~= "bytes="@);
    let ghost r = s@.subrange(6, n as int);
    match find_char(&s, 6, n, '-') {
        None => None,
        Some(p) => {
            let ghost a = r.subrange(0, p as int);
            let ghost b = r.subrange(p + 1, r.len() as int);
            assert(a =~= s@.subrange(6, 6 + p));
            assert(b =~= s@.subrange(7 + p, n as int));
            if find_char(&s, 7 + p, n, '-').is_some() {
                return None;
            }
            match parse_u64(&s, 6, 6 + p) {
                None => None,
                Some(start) => {
                    let end = if 7 + p == n {
                        if file_size == 0 {
                            None
                        } else {
                            Some(file_size - 1)
                        }
                    } else {
                        parse_u64(&s, 7 + p, n)
                    };
                    match end {
                        None => None,
                        Some(e) => if start <= e && e < file_size {
                            Some((start, e))
                        } else {
                            None
                        },
                    }
                },
            }
        },
    }
}

/// What `str::to_lowercase` returns for a text.
pub uninterp spec fn lower_of(s: Seq<char>) -> Seq<char>;

/// Relies on `str::to_lowercase`: its result depends on the characters alone.
#[verifier::external_body]
fn lowercase(s: &str) -> (r: String)
    ensures
        r@ == lower_of(s@),
{
    s.to_lowercase()
}

/// The text after the last `.` of `p`; all of `p` when it has none.
pub open spec fn after_last_dot(p: Seq<char>) -> Seq<char> {
    after_last(p, '.')
}

/// The media type served for a lower-case file extension.
pub open spec fn mime_of(ext: Seq<char>) -> Seq<char> {
    if ext == "mp4"@ {
        "video/mp4"@
    } else if ext == "mov"@ {
        "video/quicktime"@
    } else if ext == "webm"@ {
        "video/webm"@
    } else if ext == "mkv"@ {
        "video/x-matroska"@
    } else if ext == "avi"@ {
        "video/x-msvideo"@
    } else {
        "application/octet-stream"@
    }
}

/// The media type for an extension already in lower case.
pub fn mime_for_extension(ext: &str) -> (r: &'static str)
    ensures
        r@ == mime_of(ext@),
{
    if same_text(ext, "mp4") {
        "video/mp4"
    } else if same_text(ext, "mov") {
        "video/quicktime"
    } else if same_text(ext, "webm") {
        "video/webm"
    } else if same_text(ext, "mkv") {
        "video/x-matroska"
    } else if same_text(ext, "avi") {
        "video/x-msvideo"
    } else {
        "application/octet-stream"
    }
}

/// The extension of `path`: what follows its last `.`.
pub fn extension_of(path: &str) -> (r: &str)
    ensures
        r@ == after_last_dot(path@),
{
    text_after_last(path, '.')
}

/// The media type of a file, from its extension in any case.
pub fn get_mime_type(path: &str) -> (r: &'static str)
    ensures
        r@ == mime_of(lower_of(after_last_dot(path@))),
{
    let ext = lowercase(extension_of(path));
    mime_for_extension(ext.as_str())
}

/// What SHA-256 gives for a sequence of bytes.
pub uninterp spec fn sha256_of(b: Seq<u8>) -> Seq<u8>;

/// Relies on `sha2::Sha256::digest`: the digest of the bytes, which is 32 bytes long.
#[verifier::external_body]
fn sha256(bytes: &[u8]) -> (r: Vec<u8>)
    ensures
        r@ == sha256_of(bytes@),
        r@.len() == 32,
{
    <sha2::Sha256 as sha2::Digest>::digest(bytes).to_vec()
}

/// The lower-case hexadecimal digit of `v < 16`.
pub open spec fn hex_digit(v: nat) -> char {
    if v < 10 {
        digit_char(v)
    } else if v == 10 {
        'a'
    } else if v == 11 {
        'b'
    } else if v == 12 {
        'c'
    } else if v == 13 {
        'd'
    } else if v == 14 {
        'e'
    } else {
        'f'
    }
}

/// Two lower-case hexadecimal digits per byte, high half first.
pub open spec fn hex_text(b: Seq<u8>) -> Seq<char>
    decreases b.len(),
{
    if b.len() == 0 {
        Seq::empty()
    } else {
        hex_text(b.drop_last()) + seq![hex_digit((b.last() / 16) as nat), hex_digit((b.last() % 16) as nat)]
    }
}

proof fn lemma_hex_len(b: Seq<u8>)
    ensures
        hex_text(b).len() == 2 * b.len(),
    decreases b.len(),
{
    if b.len() > 0 {
        lemma_hex_len(b.drop_last());
    }
}

/// Relies on `hex::encode`: two lower-case digits from `0123456789abcdef` per
/// byte, the high half first.
#[verifier::external_body]
fn to_hex(b: &Vec<u8>) -> (r: String)
    ensures
        r@ == hex_text(b@),
{
    hex::encode(b)
}

/// The identifier made from a path's digest: its first 16 hexadecimal digits.
pub fn id_from_digest(digest: &Vec<u8>) -> (r: String)
    requires
        digest@.len() >= 8,
    ensures
        r@ == hex_text(digest@).subrange(0, 16),
{
    let hex = to_hex(digest);
    proof {
        lemma_hex_len(digest@);
    }
    String::from_str(hex.as_str().substring_char(0, 16))
}

/// The identifier under which a video is served: the first 16 hexadecimal
/// digits of the SHA-256 digest of its path.
pub fn video_id(path: &str) -> (r: String)
    ensures
        r@ == hex_text(sha256_of(path.spec_bytes())).subrange(0, 16),
{
    let digest = sha256(path.as_bytes());
    id_from_digest(&digest)
}

/// The address at which the video `id` is served on `port`.
pub fn video_url(port: u16, id: &String) -> (r: String)
    ensures
        r@ == "http://127.0.0.1:"@ + decimal_text(port as nat) + "/video/"@ + id@,
{
    let mut s = String::from_str("http://127.0.0.1:");
    push_decimal(&mut s, port as u64);
    s.append("/video/");
    s.append(id.as_str());
    s
}

/// The port the media server listens on.
pub struct VideoServerPort(pub u16);

/// The path registered last under `id` among `entries`.
pub open spec fn registered(entries: Seq<(String, String)>, id: Seq<char>) -> Option<Seq<char>>
    decreases entries.len(),
{
    if entries.len() == 0 {
        None
    } else if entries.last().0@ == id {
        Some(entries.last().1@)
    } else {
        registered(entries.drop_last(), id)
    }
}

/// No identifier appears twice among `entries`.
pub open spec fn unique_ids(entries: Seq<(String, String)>) -> bool {
    forall|i: int, j: int| 0 <= i < j < entries.len() ==> entries[i].0@ != entries[j].0@
}

proof fn lemma_registered_update(entries: Seq<(String, String)>, i: int, e: (String, String), k: Seq<char>)
    requires
        0 <= i < entries.len(),
        unique_ids(entries),
        entries[i].0@ == e.0@,
    ensures
        registered(entries.update(i, e), k) == (if k == e.0@ {
            Some(e.1@)
        } else {
            registered(entries, k)
        }),
    decreases entries.len(),
{
    let n = entries.len() as int;
    let u = entries.update(i, e);
    if i == n - 1 {
        assert(u.drop_last() =~= entries.drop_last());
        if k == e.0@ {
        } else {
        }
    } else {
        assert(u.drop_last() =~= entries.drop_last().update(i, e));
        assert(unique_ids(entries.drop_last()));
        lemma_registered_update(entries.drop_last(), i, e, k);
        assert(entries.last().0@ != e.0@);
    }
}

proof fn lemma_registered_absent(entries: Seq<(String, String)>, id: Seq<char>)
    requires
        forall|j: int| 0 <= j < entries.len() ==> entries[j].0@ != id,
    ensures
        registered(entries, id) is None,
    decreases entries.len(),
{
    if entries.len() > 0 {
        lemma_registered_absent(entries.drop_last(), id);
    }
}

/// The videos the media server may serve, by identifier; each identifier
/// appears once, and registering it again replaces its path.
pub struct VideoServerState {
    pub entries: Vec<(String, String)>,
}

impl VideoServerState {
    pub open spec fn wf(self) -> bool {
        unique_ids(self.entries@)
    }

    pub fn new() -> (r: Self)
        ensures
            r.wf(),
            forall|id: Seq<char>| registered(r.entries@, id) is None,
    {
        VideoServerState { entries: Vec::new() }
    }

    /// Serves the file at `path` under `id` from now on.
    pub fn register(&mut self, id: String, path: String)
        requires
            old(self).wf(),
        ensures
            final(self).wf(),
            registered(final(self).entries@, id@) == Some(path@),
            forall|k: Seq<char>|
                k != id@ ==> registered(final(self).entries@, k) == registered(old(self).entries@, k),
    {
        let mut i: usize = 0;
        while i < self.entries.len()
            invariant
                i <= self.entries@.len(),
                self.entries@ == old(self).entries@,
                unique_ids(self.entries@),
                forall|j: int| 0 <= j < i ==> self.entries@[j].0@ != id@,
            decreases self.entries@.len() - i,
        {
            if same_text(self.entries[i].0.as_str(), id.as_str()) {
                let ghost e = (id, path);
                proof {
                    lemma_registered_update(self.entries@, i as int, e, id@);
                    assert forall|k: Seq<char>| k != id@ implies registered(self.entries@.update(i as int, e), k)
                        == registered(self.entries@, k) by {
                        lemma_registered_update(self.entries@, i as int, e, k);
                    }
                }
                self.entries.set(i, (id, path));
                return;
            }
            i = i + 1;
        }
        proof {
            lemma_registered_absent(self.entries@, id@);
        }
        self.entries.push((id, path));
        assert(self.entries@.drop_last() =~= old(self).entries@);
    }

    /// The path registered under `id`, if any.
    pub fn lookup(&self, id: &str) -> (r: Option<String>)
        ensures
            match r {
                Some(p) => registered(self.entries@, id@) == Some(p@),
                None => registered(self.entries@, id@) is None,
            },
    {
        let mut i = self.entries.len();
        assert(self.entries@.subrange(0, i as int) =~= self.entries@);
        while i > 0
            invariant
                i <= self.entries@.len(),
                registered(self.entries@, id@) == registered(self.entries@.subrange(0, i as int), id@),
            decreases i,
        {
            let ghost pre = self.entries@.subrange(0, i as int);
            assert(pre.drop_last() =~= self.entries@.subrange(0, i - 1));
            if same_text(self.entries[i - 1].0.as_str(), id) {
                return Some(self.entries[i - 1].1.clone());
            }
            i = i - 1;
        }
        None
    }
}

/// Registers the video at `path` and gives the address it is served at on `port`.
pub fn get_video_url(path: &str, video_state: &mut VideoServerState, port: &VideoServerPort) -> (r: String)
    requires
        old(video_state).wf(),
    ensures
        final(video_state).wf(),
        registered(final(video_state).entries@, hex_text(sha256_of(path.spec_bytes())).subrange(0, 16))
            == Some(path@),
        forall|k: Seq<char>|
            k != hex_text(sha256_of(path.spec_bytes())).subrange(0, 16) ==> registered(
                final(video_state).entries@,
                k,
            ) == registered(old(video_state).entries@, k),
        r@ == "http://127.0.0.1:"@ + decimal_text(port.0 as nat) + "/video/"@ + hex_text(
            sha256_of(path.spec_bytes()),
        ).subrange(0, 16),
{
    let id = video_id(path);
    let url = video_url(port.0, &id);
    video_state.register(id, String::from_str(path));
    url
}

} // verus!
