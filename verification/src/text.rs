//! Decimal rendering of integers and the assembly-text builders that the
//! encoders use for mnemonics and error messages.

use vstd::prelude::*;
use vstd::string::*;

verus! {

/// The decimal digit character for `d` (`d < 10`).
pub open spec fn digit_char(d: nat) -> char {
    if d == 0 { '0' }
    else if d == 1 { '1' }
    else if d == 2 { '2' }
    else if d == 3 { '3' }
    else if d == 4 { '4' }
    else if d == 5 { '5' }
    else if d == 6 { '6' }
    else if d == 7 { '7' }
    else if d == 8 { '8' }
    else { '9' }
}

/// Decimal representation of a natural number, without leading zeros
/// (zero is `"0"`).
pub open spec fn dec(n: nat) -> Seq<char>
    decreases n,
{
    if n < 10 {
        seq![digit_char(n)]
    } else {
        dec(n / 10).push(digit_char(n % 10))
    }
}

/// Decimal representation of an integer: a minus sign before the digits of
/// its magnitude when it is negative.
pub open spec fn dec_int(i: int) -> Seq<char> {
    if i < 0 {
        seq!['-'] + dec((-i) as nat)
    } else {
        dec(i as nat)
    }
}

/// The one-character text of digit `d`.
fn digit_text(d: u64) -> (t: &'static str)
    requires
        d < 10,
    ensures
        t@ == seq![digit_char(d as nat)],
{
    match d {
        0 => {
            proof {
                reveal_strlit("0");
            }
            "0"
        },
        1 => {
            proof {
                reveal_strlit("1");
            }
            "1"
        },
        2 => {
            proof {
                reveal_strlit("2");
            }
            "2"
        },
        3 => {
            proof {
                reveal_strlit("3");
            }
            "3"
        },
        4 => {
            proof {
                reveal_strlit("4");
            }
            "4"
        },
        5 => {
            proof {
                reveal_strlit("5");
            }
            "5"
        },
        6 => {
            proof {
                reveal_strlit("6");
            }
            "6"
        },
        7 => {
            proof {
                reveal_strlit("7");
            }
            "7"
        },
        8 => {
            proof {
                reveal_strlit("8");
            }
            "8"
        },
        _ => {
            proof {
                reveal_strlit("9");
            }
            "9"
        },
    }
}

/// Appends the decimal digits of `n`, most significant first.
fn push_digits(s: &mut String, n: u64)
    ensures
        final(s)@ == old(s)@ + dec(n as nat),
    decreases n,
{
    if n >= 10 {
        push_digits(s, n / 10);
    }
    let t = digit_text(n % 10);
    s.append(t);
    proof {
        if n < 10 {
            assert(n % 10 == n);
        }
    }
}

/// A new string holding `t`.
pub fn text(t: &str) -> (s: String)
    ensures
        s@ == t@,
{
    let mut s = String::new();
    s.append(t);
    assert(s@ =~= t@);
    s
}

/// Appends a piece of literal text.
pub fn push_text(s: &mut String, t: &str)
    ensures
        final(s)@ == old(s)@ + t@,
{
    s.append(t);
}

/// Appends the decimal rendering of an unsigned number.
pub fn push_u64(s: &mut String, n: u64)
    ensures
        final(s)@ == old(s)@ + dec(n as nat),
{
    push_digits(s, n);
}

/// Appends the decimal rendering of a signed number.
pub fn push_i64(s: &mut String, n: i64)
    ensures
        final(s)@ == old(s)@ + dec_int(n as int),
{
    if n < 0 {
        proof {
            reveal_strlit("-");
        }
        s.append("-");
        let magnitude: u64 = if n == i64::MIN {
            9223372036854775808u64
        } else {
            (-n) as u64
        };
        push_digits(s, magnitude);
        assert(s@ =~= old(s)@ + dec_int(n as int));
    } else {
        push_digits(s, n as u64);
    }
}

/// `t` followed by the decimal rendering of `n`.
pub fn text_num(t: &str, n: u64) -> (s: String)
    ensures
        s@ == t@ + dec(n as nat),
{
    let mut s = String::new();
    push_text(&mut s, t);
    push_u64(&mut s, n);
    s
}

/// Mnemonic text of the form `name p1A, p2B`.
pub open spec fn mn2(name: Seq<char>, p1: Seq<char>, a: nat, p2: Seq<char>, b: nat) -> Seq<char> {
    name + " "@ + p1 + dec(a) + ", "@ + p2 + dec(b)
}

/// Mnemonic text of the form `name p1A, p2B, p3C`.
pub open spec fn mn3(
    name: Seq<char>,
    p1: Seq<char>,
    a: nat,
    p2: Seq<char>,
    b: nat,
    p3: Seq<char>,
    c: nat,
) -> Seq<char> {
    mn2(name, p1, a, p2, b) + ", "@ + p3 + dec(c)
}

/// Mnemonic text of the form `name pA, pB, pC, pD`.
pub open spec fn mn4(name: Seq<char>, p: Seq<char>, a: nat, b: nat, c: nat, d: nat) -> Seq<char> {
    mn3(name, p, a, p, b, p, c) + ", "@ + p + dec(d)
}

pub fn text_mn2(name: &str, p1: &str, a: u64, p2: &str, b: u64) -> (s: String)
    ensures
        s@ == mn2(name@, p1@, a as nat, p2@, b as nat),
{
    let mut s = String::new();
    push_text(&mut s, name);
    push_text(&mut s, " ");
    push_text(&mut s, p1);
    push_u64(&mut s, a);
    push_text(&mut s, ", ");
    push_text(&mut s, p2);
    push_u64(&mut s, b);
    s
}

pub fn text_mn3(name: &str, p1: &str, a: u64, p2: &str, b: u64, p3: &str, c: u64) -> (s: String)
    ensures
        s@ == mn3(name@, p1@, a as nat, p2@, b as nat, p3@, c as nat),
{
    let mut s = text_mn2(name, p1, a, p2, b);
    push_text(&mut s, ", ");
    push_text(&mut s, p3);
    push_u64(&mut s, c);
    s
}

pub fn text_mn4(name: &str, p: &str, a: u64, b: u64, c: u64, d: u64) -> (s: String)
    ensures
        s@ == mn4(name@, p@, a as nat, b as nat, c as nat, d as nat),
{
    let mut s = text_mn3(name, p, a, p, b, p, c);
    push_text(&mut s, ", ");
    push_text(&mut s, p);
    push_u64(&mut s, d);
    s
}

} // verus!
