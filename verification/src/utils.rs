//! Small helpers for building diagnostics.

use vstd::prelude::*;
use vstd::string::*;

verus! {

/// The character that stands for the digit `d`.
pub open spec fn digit_char(d: nat) -> char {
    if d == 0 {
        '0'
    } else if d == 1 {
        '1'
    } else if d == 2 {
        '2'
    } else if d == 3 {
        '3'
    } else if d == 4 {
        '4'
    } else if d == 5 {
        '5'
    } else if d == 6 {
        '6'
    } else if d == 7 {
        '7'
    } else if d == 8 {
        '8'
    } else {
        '9'
    }
}

/// The number `n` written in base ten, without leading zeros.
pub open spec fn decimal(n: nat) -> Seq<char>
    decreases n,
{
    if n < 10 {
        seq![digit_char(n)]
    } else {
        decimal(n / 10) + seq![digit_char(n % 10)]
    }
}

/// The text of one digit.
fn digit_text(d: usize) -> (text: &'static str)
    requires
        d < 10,
    ensures
        text@ == seq![digit_char(d as nat)],
{
    proof {
        reveal_strlit("0");
        reveal_strlit("1");
        reveal_strlit("2");
        reveal_strlit("3");
        reveal_strlit("4");
        reveal_strlit("5");
        reveal_strlit("6");
        reveal_strlit("7");
        reveal_strlit("8");
        reveal_strlit("9");
    }
    let text = if d == 0 {
        "0"
    } else if d == 1 {
        "1"
    } else if d == 2 {
        "2"
    } else if d == 3 {
        "3"
    } else if d == 4 {
        "4"
    } else if d == 5 {
        "5"
    } else if d == 6 {
        "6"
    } else if d == 7 {
        "7"
    } else if d == 8 {
        "8"
    } else {
        "9"
    };
    assert(text@ =~= seq![digit_char(d as nat)]);
    text
}

/// Writes `n` in base ten.
pub fn to_decimal(n: usize) -> (text: String)
    ensures
        text@ == decimal(n as nat),
    decreases n,
{
    if n < 10 {
        String::from_str(digit_text(n))
    } else {
        let mut text = to_decimal(n / 10);
        text.append(digit_text(n % 10));
        text
    }
}

/// Of `l` and `r`, the one to which `f` gives the smaller key: `r` when
/// the keys are equal.
pub fn min_by<T, F: Fn(&T) -> usize>(l: T, r: T, f: F) -> (least: T)
    requires
        f.requires((&l,)),
        f.requires((&r,)),
    ensures
        exists|l_key: usize, r_key: usize|
            f.ensures((&l,), l_key) && f.ensures((&r,), r_key) && least == (if l_key < r_key {
                l
            } else {
                r
            }),
{
    if f(&l) < f(&r) {
        l
    } else {
        r
    }
}

/// Of `l` and `r`, the one to which `f` gives the greater key: `r` when
/// the keys are equal.
pub fn max_by<T, F: Fn(&T) -> usize>(l: T, r: T, f: F) -> (greatest: T)
    requires
        f.requires((&l,)),
        f.requires((&r,)),
    ensures
        exists|l_key: usize, r_key: usize|
            f.ensures((&l,), l_key) && f.ensures((&r,), r_key) && greatest == (if l_key
                > r_key {
                l
            } else {
                r
            }),
{
    if f(&l) > f(&r) {
        l
    } else {
        r
    }
}

/// `l` and `r`, the one to which `f` gives the smaller key first: `r`
/// first when the keys are equal.
pub fn min_max_by<T, F: Fn(&T) -> usize>(l: T, r: T, f: F) -> (ordered: (T, T))
    requires
        f.requires((&l,)),
        f.requires((&r,)),
    ensures
        exists|l_key: usize, r_key: usize|
            f.ensures((&l,), l_key) && f.ensures((&r,), r_key) && ordered == (if l_key
                < r_key {
                (l, r)
            } else {
                (r, l)
            }),
{
    if f(&l) < f(&r) {
        (l, r)
    } else {
        (r, l)
    }
}

} // verus!
