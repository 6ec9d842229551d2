//! Decimal rendering of integers and of millisecond times.
use vstd::prelude::*;

verus! {

/// The character of a decimal digit.
pub open spec fn digit_char(d: nat) -> char {
    if d == 0 {
        '0'
    } else if d == 1 {
        '1'
    } else if d == 2 {
        '2'
    } else if d == 3 {
        '3'
    } else if d == 4 {
        '4'
    } else if d == 5 {
        '5'
    } else if d == 6 {
        '6'
    } else if d == 7 {
        '7'
    } else if d == 8 {
        '8'
    } else {
        '9'
    }
}

/// The decimal text of `n`, without leading zeros.
pub open spec fn decimal_text(n: nat) -> Seq<char>
    decreases n,
{
    if n < 10 {
        seq![digit_char(n)]
    } else {
        decimal_text(n / 10).push(digit_char(n % 10))
    }
}

/// `k` zero characters.
pub open spec fn zeros(k: nat) -> Seq<char>
    decreases k,
{
    if k == 0 {
        Seq::empty()
    } else {
        zeros((k - 1) as nat).push('0')
    }
}

/// The decimal text of `n`, padded with leading zeros to at least `width` characters.
pub open spec fn padded_text(n: nat, width: nat) -> Seq<char> {
    let d = decimal_text(n);
    if d.len() < width {
        zeros((width - d.len()) as nat) + d
    } else {
        d
    }
}

/// A time in milliseconds written as seconds with three decimals (`4500` is `4.500`).
pub open spec fn seconds_text(ms: nat) -> Seq<char> {
    decimal_text(ms / 1000) + seq!['.'] + padded_text(ms % 1000, 3)
}

fn digit_str(d: u64) -> (r: &'static str)
    requires
        d < 10,
    ensures
        r@ == seq![digit_char(d as nat)],
{
    proof {
        reveal_strlit("0");
        reveal_strlit("1");
        reveal_strlit("2");
        reveal_strlit("3");
        reveal_strlit("4");
        reveal_strlit("5");
        reveal_strlit("6");
        reveal_strlit("7");
        reveal_strlit("8");
        reveal_strlit("9");
    }
    if d == 0 {
        "0"
    } else if d == 1 {
        "1"
    } else if d == 2 {
        "2"
    } else if d == 3 {
        "3"
    } else if d == 4 {
        "4"
    } else if d == 5 {
        "5"
    } else if d == 6 {
        "6"
    } else if d == 7 {
        "7"
    } else if d == 8 {
        "8"
    } else {
        "9"
    }
}

/// Appends the decimal text of `n` to `s`.
pub fn push_decimal(s: &mut String, n: u64)
    ensures
        final(s)@ == old(s)@ + decimal_text(n as nat),
    decreases n,
{
    if n < 10 {
        s.append(digit_str(n));
    } else {
        push_decimal(s, n / 10);
        s.append(digit_str(n % 10));
        assert(decimal_text(n as nat) == decimal_text((n / 10) as nat).push(
            digit_char((n % 10) as nat),
        ));
        assert(old(s)@ + decimal_text(n as nat) =~= old(s)@ + decimal_text((n / 10) as nat)
            + seq![digit_char((n % 10) as nat)]);
    }
}

/// The decimal text of `n`.
pub fn decimal_string(n: u64) -> (r: String)
    ensures
        r@ == decimal_text(n as nat),
{
    let mut s = String::new();
    push_decimal(&mut s, n);
    assert(s@ =~= decimal_text(n as nat));
    s
}

/// Appends `n` padded with zeros to at least `width` digits.
pub fn push_padded(s: &mut String, n: u64, width: usize)
    ensures
        final(s)@ == old(s)@ + padded_text(n as nat, width as nat),
{
    let d = decimal_string(n);
    let len = d.as_str().unicode_len();
    if len < width {
        let mut k: usize = 0;
        while k < width - len
            invariant
                k <= width - len,
                s@ == old(s)@ + zeros(k as nat),
            decreases width - len - k,
        {
            s.append("0");
            proof {
                reveal_strlit("0");
            }
            k = k + 1;
            assert(s@ =~= old(s)@ + zeros(k as nat));
        }
    }
    s.append(d.as_str());
    assert(s@ =~= old(s)@ + padded_text(n as nat, width as nat));
}

/// Appends a millisecond time as seconds with three decimals.
pub fn push_seconds(s: &mut String, ms: u64)
    ensures
        final(s)@ == old(s)@ + seconds_text(ms as nat),
{
    push_decimal(s, ms / 1000);
    s.append(".");
    proof {
        reveal_strlit(".");
    }
    push_padded(s, ms % 1000, 3);
    assert(s@ =~= old(s)@ + seconds_text(ms as nat));
}

/// A millisecond time as seconds with three decimals.
pub fn seconds_string(ms: u64) -> (r: String)
    ensures
        r@ == seconds_text(ms as nat),
{
    let mut s = String::new();
    push_seconds(&mut s, ms);
    assert(s@ =~= seconds_text(ms as nat));
    s
}

} // verus!
