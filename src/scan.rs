//! Searching and reading numbers in character sequences.
use vstd::prelude::*;

verus! {

/// `pat` occurs in `s` at position `i`.
pub open spec fn matches_at(s: Seq<char>, pat: Seq<char>, i: int) -> bool {
    0 <= i && i + pat.len() <= s.len() && s.subrange(i, i + pat.len()) == pat
}

/// The first position at or after `i` where `pat` occurs in `s`.
pub open spec fn find_from(s: Seq<char>, pat: Seq<char>, i: int) -> Option<int>
    decreases s.len() + 1 - i,
{
    if i < 0 || i + pat.len() > s.len() {
        None
    } else if matches_at(s, pat, i) {
        Some(i)
    } else {
        find_from(s, pat, i + 1)
    }
}

/// The first position where `pat` occurs in `s`.
pub open spec fn find(s: Seq<char>, pat: Seq<char>) -> Option<int> {
    find_from(s, pat, 0)
}

pub open spec fn is_digit(c: char) -> bool {
    '0' <= c && c <= '9'
}

pub open spec fn digit_value(c: char) -> nat {
    (c as u32 - '0' as u32) as nat
}

pub open spec fn all_digits(t: Seq<char>) -> bool {
    forall|i: int| 0 <= i < t.len() ==> is_digit(#[trigger] t[i])
}

/// The number that a sequence of decimal digits denotes.
pub open spec fn digits_value(t: Seq<char>) -> nat
    decreases t.len(),
{
    if t.len() == 0 {
        0
    } else {
        digits_value(t.drop_last()) * 10 + digit_value(t.last())
    }
}

pub open spec fn pow10(n: nat) -> nat
    decreases n,
{
    if n == 0 {
        1
    } else {
        10 * pow10((n - 1) as nat)
    }
}

/// Thousandths read from the digits after a decimal point; later digits are dropped.
pub open spec fn frac_thousandths(f: Seq<char>) -> nat {
    100 * (if f.len() > 0 { digit_value(f[0]) } else { 0 }) + 10 * (if f.len() > 1 {
        digit_value(f[1])
    } else {
        0
    }) + (if f.len() > 2 { digit_value(f[2]) } else { 0 })
}

/// Longest integer part, in digits, that a plain decimal may have. Nine
/// digits reach past 31 years in seconds, beyond any media time or frame rate,
/// and keep every value in thousandths below 10^12, so sums of clock fields
/// cannot overflow; a longer integer part is read as malformed.
pub const MAX_INT_DIGITS: usize = 9;

/// The value, in thousandths, of a plain unsigned decimal (`12`, `2.50`, `.5`, `7.`)
/// whose integer part has at most nine digits; `None` for any other text.
pub open spec fn decimal_thousandths(t: Seq<char>) -> Option<nat> {
    match find(t, seq!['.']) {
        None => if t.len() > 0 && t.len() <= MAX_INT_DIGITS && all_digits(t) {
            Some(digits_value(t) * 1000)
        } else {
            None
        },
        Some(p) => {
            let a = t.subrange(0, p);
            let f = t.subrange(p + 1, t.len() as int);
            if a.len() + f.len() > 0 && a.len() <= MAX_INT_DIGITS && all_digits(a) && all_digits(
                f,
            ) {
                Some(digits_value(a) * 1000 + frac_thousandths(f))
            } else {
                None
            }
        },
    }
}

/// The characters of `s`, one element each.
pub fn chars_of(s: &str) -> (r: Vec<char>)
    ensures
        r@ == s@,
{
    let n = s.unicode_len();
    let mut r: Vec<char> = Vec::new();
    let mut i: usize = 0;
    while i < n
        invariant
            n == s@.len(),
            i <= n,
            r@ == s@.subrange(0, i as int),
        decreases n - i,
    {
        r.push(s.get_char(i));
        i = i + 1;
        assert(r@ =~= s@.subrange(0, i as int));
    }
    assert(r@ =~= s@);
    r
}

proof fn lemma_find_from_bounds(s: Seq<char>, pat: Seq<char>, i: int)
    ensures
        find_from(s, pat, i) matches Some(k) ==> i <= k && matches_at(s, pat, k),
    decreases s.len() + 1 - i,
{
    if !(i < 0 || i + pat.len() > s.len()) && !matches_at(s, pat, i) {
        lemma_find_from_bounds(s, pat, i + 1);
    }
}

/// Where `pat` first occurs in `s[lo..hi]`, counted from `lo`.
pub fn find_in(s: &Vec<char>, lo: usize, hi: usize, pat: &Vec<char>) -> (r: Option<usize>)
    requires
        lo <= hi <= s@.len(),
    ensures
        r matches Some(k) ==> find(s@.subrange(lo as int, hi as int), pat@) == Some(k as int),
        r is None ==> find(s@.subrange(lo as int, hi as int), pat@) is None,
        r matches Some(k) ==> k + pat@.len() <= hi - lo,
{
    let ghost sub = s@.subrange(lo as int, hi as int);
    let m = pat.len();
    if m > hi - lo {
        return None;
    }
    let mut i: usize = lo;
    while i <= hi - m
        invariant
            lo <= i,
            i <= hi - m + 1,
            hi <= s@.len(),
            m == pat@.len(),
            m <= hi - lo,
            sub == s@.subrange(lo as int, hi as int),
            find(sub, pat@) == find_from(sub, pat@, i - lo),
        decreases hi - i,
    {
        let mut j: usize = 0;
        let mut same = true;
        while j < m
            invariant
                j <= m,
                i + m <= hi,
                hi <= s@.len(),
                m == pat@.len(),
                same == (forall|t: int| 0 <= t < j ==> s@[i + t] == pat@[t]),
            decreases m - j,
        {
            if s[i + j] != pat[j] {
                same = false;
            }
            j = j + 1;
        }
        proof {
            let k = i - lo;
            if same {
                assert(sub.subrange(k, k + m) =~= pat@);
            } else {
                if matches_at(sub, pat@, k) {
                    let t = choose|t: int| 0 <= t < m && s@[i + t] != pat@[t];
                    assert(sub.subrange(k, k + m)[t] == s@[i + t]);
                }
            }
        }
        if same {
            return Some(i - lo);
        }
        i = i + 1;
    }
    None
}

/// The first position of `c` in `s[lo..hi]`, counted from `lo`.
pub fn find_char(s: &Vec<char>, lo: usize, hi: usize, c: char) -> (r: Option<usize>)
    requires
        lo <= hi <= s@.len(),
    ensures
        r matches Some(k) ==> find(s@.subrange(lo as int, hi as int), seq![c]) == Some(k as int),
        r is None ==> find(s@.subrange(lo as int, hi as int), seq![c]) is None,
        r matches Some(k) ==> k < hi - lo,
{
    let pat = vec![c];
    assert(pat@ =~= seq![c]);
    find_in(s, lo, hi, &pat)
}

proof fn lemma_pow10_small(j: nat)
    requires
        j <= 9,
    ensures
        pow10(j) <= 1_000_000_000,
{
    reveal_with_fuel(pow10, 10);
    assert(j == 0 || j == 1 || j == 2 || j == 3 || j == 4 || j == 5 || j == 6 || j == 7 || j
        == 8 || j == 9);
}

fn digit_of(c: char) -> (r: Option<u64>)
    ensures
        r is Some <==> is_digit(c),
        r matches Some(d) ==> d == digit_value(c) && d < 10,
{
    if '0' <= c && c <= '9' {
        Some((c as u32 - '0' as u32) as u64)
    } else {
        None
    }
}

/// The value of `s[lo..hi]` when it is at most nine decimal digits.
pub fn parse_digits(s: &Vec<char>, lo: usize, hi: usize) -> (r: Option<u64>)
    requires
        lo <= hi <= s@.len(),
    ensures
        r is Some <==> (all_digits(s@.subrange(lo as int, hi as int)) && hi - lo
            <= MAX_INT_DIGITS),
        r matches Some(v) ==> v == digits_value(s@.subrange(lo as int, hi as int)) && v
            < 1_000_000_000,
{
    if hi - lo > MAX_INT_DIGITS {
        return None;
    }
    let mut acc: u64 = 0;
    let mut k: usize = lo;
    while k < hi
        invariant
            lo <= k <= hi,
            hi <= s@.len(),
            hi - lo <= 9,
            all_digits(s@.subrange(lo as int, k as int)),
            acc == digits_value(s@.subrange(lo as int, k as int)),
            acc < pow10((k - lo) as nat),
        decreases hi - k,
    {
        let d = digit_of(s[k]);
        match d {
            None => {
                assert(s@.subrange(lo as int, hi as int)[k - lo] == s@[k as int]);
                return None;
            },
            Some(d) => {
                let ghost j = (k - lo) as nat;
                proof {
                    lemma_pow10_small(j);
                    assert(acc * 10 + d < 10 * pow10(j)) by (nonlinear_arith)
                        requires
                            acc < pow10(j),
                            d < 10,
                    ;
                    assert(s@.subrange(lo as int, k + 1).drop_last() =~= s@.subrange(
                        lo as int,
                        k as int,
                    ));
                    assert(pow10(j + 1) == 10 * pow10(j));
                }
                acc = acc * 10 + d;
                k = k + 1;
                assert(all_digits(s@.subrange(lo as int, k as int))) by {
                    assert forall|t: int| 0 <= t < k - lo implies is_digit(
                        #[trigger] s@.subrange(lo as int, k as int)[t],
                    ) by {
                        if t < k - 1 - lo {
                            assert(s@.subrange(lo as int, k - 1)[t] == s@[lo + t]);
                        }
                    }
                }
            },
        }
    }
    proof {
        lemma_pow10_small((hi - lo) as nat);
    }
    Some(acc)
}

/// The value in thousandths of the plain decimal `s[lo..hi]`.
pub fn parse_decimal(s: &Vec<char>, lo: usize, hi: usize) -> (r: Option<u64>)
    requires
        lo <= hi <= s@.len(),
    ensures
        match r {
            Some(v) => decimal_thousandths(s@.subrange(lo as int, hi as int)) == Some(v as nat),
            None => decimal_thousandths(s@.subrange(lo as int, hi as int)) is None,
        },
        r matches Some(v) ==> v < 1_000_000_000_000,
{
    let ghost t = s@.subrange(lo as int, hi as int);
    match find_char(s, lo, hi, '.') {
        None => {
            if hi == lo {
                return None;
            }
            match parse_digits(s, lo, hi) {
                None => None,
                Some(v) => Some(v * 1000),
            }
        },
        Some(p) => {
            let ghost a = t.subrange(0, p as int);
            let ghost f = t.subrange(p + 1, t.len() as int);
            assert(a =~= s@.subrange(lo as int, lo + p));
            assert(f =~= s@.subrange(lo + p + 1, hi as int));
            if p == 0 && hi - lo == 1 {
                return None;
            }
            let int_part = parse_digits(s, lo, lo + p);
            match int_part {
                None => None,
                Some(v) => {
                    if !digits_only(s, lo + p + 1, hi) {
                        return None;
                    }
                    let n = hi - (lo + p + 1);
                    let d0 = if n > 0 { digit_value_of(s[lo + p + 1]) } else { 0 };
                    let d1 = if n > 1 { digit_value_of(s[lo + p + 2]) } else { 0 };
                    let d2 = if n > 2 { digit_value_of(s[lo + p + 3]) } else { 0 };
                    proof {
                        if n > 0 { assert(f[0] == s@[lo + p + 1]); }
                        if n > 1 { assert(f[1] == s@[lo + p + 2]); }
                        if n > 2 { assert(f[2] == s@[lo + p + 3]); }
                    }
                    Some(v * 1000 + 100 * d0 + 10 * d1 + d2)
                },
            }
        },
    }
}

fn digit_value_of(c: char) -> (r: u64)
    requires
        is_digit(c),
    ensures
        r == digit_value(c),
        r < 10,
{
    (c as u32 - '0' as u32) as u64
}

/// Whether `s[lo..hi]` holds decimal digits only.
pub fn digits_only(s: &Vec<char>, lo: usize, hi: usize) -> (r: bool)
    requires
        lo <= hi <= s@.len(),
    ensures
        r == all_digits(s@.subrange(lo as int, hi as int)),
{
    let mut k: usize = lo;
    while k < hi
        invariant
            lo <= k <= hi,
            hi <= s@.len(),
            forall|t: int| lo <= t < k ==> is_digit(#[trigger] s@[t]),
        decreases hi - k,
    {
        if digit_of(s[k]).is_none() {
            assert(s@.subrange(lo as int, hi as int)[k - lo] == s@[k as int]);
            return false;
        }
        k = k + 1;
    }
    assert forall|t: int| 0 <= t < hi - lo implies is_digit(
        #[trigger] s@.subrange(lo as int, hi as int)[t],
    ) by {
        assert(s@.subrange(lo as int, hi as int)[t] == s@[lo + t]);
    }
    true
}

/// Whether two texts hold the same characters.
pub fn same_text(a: &str, b: &str) -> (r: bool)
    ensures
        r == (a@ == b@),
{
    let n = a.unicode_len();
    if n != b.unicode_len() {
        return false;
    }
    let mut i: usize = 0;
    while i < n
        invariant
            n == a@.len(),
            n == b@.len(),
            i <= n,
            forall|j: int| 0 <= j < i ==> a@[j] == b@[j],
        decreases n - i,
    {
        if a.get_char(i) != b.get_char(i) {
            return false;
        }
        i = i + 1;
    }
    assert(a@ =~= b@);
    true
}

/// The text after the last `c` of `p`; all of `p` when it has none.
pub open spec fn after_last(p: Seq<char>, c: char) -> Seq<char>
    decreases p.len(),
{
    if p.len() == 0 {
        p
    } else if p.last() == c {
        Seq::empty()
    } else {
        after_last(p.drop_last(), c).push(p.last())
    }
}

/// What follows the last `c` of `p`.
pub fn text_after_last(p: &str, c: char) -> (r: &str)
    ensures
        r@ == after_last(p@, c),
{
    let n = p.unicode_len();
    let mut i = n;
    assert(p@.subrange(0, n as int) =~= p@);
    assert(after_last(p@, c) =~= after_last(p@, c) + p@.subrange(n as int, n as int));
    while i > 0
        invariant
            i <= n,
            n == p@.len(),
            after_last(p@, c) == after_last(p@.subrange(0, i as int), c) + p@.subrange(i as int, n as int),
        decreases i,
    {
        let ghost pre = p@.subrange(0, i as int);
        assert(pre.drop_last() =~= p@.subrange(0, i - 1));
        if p.get_char(i - 1) == c {
            assert(after_last(p@, c) =~= p@.subrange(i as int, n as int));
            return p.substring_char(i, n);
        }
        assert(p@.subrange(i - 1, n as int) =~= seq![p@[i - 1]] + p@.subrange(i as int, n as int));
        assert(after_last(p@, c) =~= after_last(p@.subrange(0, i - 1), c) + p@.subrange(i - 1, n as int));
        i = i - 1;
    }
    assert(p@.subrange(0, 0) =~= Seq::<char>::empty());
    p.substring_char(0, n)
}

} // verus!
