//! Text helpers shared by the report pages: decimal numbers and booleans.

use vstd::prelude::*;

verus! {

/// The decimal digit `d` (for `d < 10`).
pub open spec fn digit_char(d: nat) -> char {
    seq!['0', '1', '2', '3', '4', '5', '6', '7', '8', '9'][d as int]
}

/// The decimal representation of `n`, without sign or leading zeros.
pub open spec fn decimal(n: nat) -> Seq<char>
    decreases n,
{
    if n < 10 {
        seq![digit_char(n)]
    } else {
        decimal(n / 10) + seq![digit_char(n % 10)]
    }
}

/// How `bool` prints: `true` or `false`.
pub open spec fn bool_text(b: bool) -> Seq<char> {
    if b {
        seq!['t', 'r', 'u', 'e']
    } else {
        seq!['f', 'a', 'l', 's', 'e']
    }
}

fn digit_str(d: usize) -> (s: &'static str)
    requires
        d < 10,
    ensures
        s@ == seq![digit_char(d as nat)],
{
    match d {
        0 => { proof { reveal_strlit("0"); } "0" },
        1 => { proof { reveal_strlit("1"); } "1" },
        2 => { proof { reveal_strlit("2"); } "2" },
        3 => { proof { reveal_strlit("3"); } "3" },
        4 => { proof { reveal_strlit("4"); } "4" },
        5 => { proof { reveal_strlit("5"); } "5" },
        6 => { proof { reveal_strlit("6"); } "6" },
        7 => { proof { reveal_strlit("7"); } "7" },
        8 => { proof { reveal_strlit("8"); } "8" },
        _ => { proof { reveal_strlit("9"); } "9" },
    }
}

/// Appends the decimal representation of `n` to `s`.
pub fn push_decimal(s: &mut String, n: usize)
    ensures
        final(s)@ == old(s)@ + decimal(n as nat),
    decreases n,
{
    if n >= 10 {
        push_decimal(s, n / 10);
    }
    s.append(digit_str(n % 10));
}

/// Appends `true` or `false` to `s`, as `bool` prints.
pub fn push_bool(s: &mut String, b: bool)
    ensures
        final(s)@ == old(s)@ + bool_text(b),
{
    if b {
        proof { reveal_strlit("true"); }
        s.append("true");
    } else {
        proof { reveal_strlit("false"); }
        s.append("false");
    }
}

/// `n` (below 100) as two digits, with a leading zero.
pub open spec fn two_digits(n: nat) -> Seq<char> {
    seq![digit_char(n / 10), digit_char(n % 10)]
}

/// `s` with zeros in front up to four characters.
pub open spec fn zero_pad4(s: Seq<char>) -> Seq<char> {
    if s.len() >= 4 {
        s
    } else {
        Seq::new((4 - s.len()) as nat, |i: int| '0') + s
    }
}

/// A year as `%Y` prints it: zero-padded to four digits, with a sign before
/// years outside 0 to 9999.
pub open spec fn year_text(y: int) -> Seq<char> {
    if 0 <= y <= 9999 {
        zero_pad4(decimal(y as nat))
    } else if y < 0 {
        seq!['-'] + zero_pad4(decimal((-y) as nat))
    } else {
        seq!['+'] + zero_pad4(decimal(y as nat))
    }
}

/// A moment as `%Y-%m-%d %H:%M:%S` prints it.
pub open spec fn stamp_text(y: int, mo: nat, d: nat, h: nat, mi: nat, s: nat) -> Seq<char> {
    year_text(y) + seq!['-'] + two_digits(mo) + seq!['-'] + two_digits(d) + seq![' '] + two_digits(h)
        + seq![':'] + two_digits(mi) + seq![':'] + two_digits(s)
}

/// `t` is some moment as `%Y-%m-%d %H:%M:%S` prints it: a year that chrono
/// supports, month 01 to 12, day 01 to 31, hour 00 to 23, minute 00 to 59
/// and second 00 to 60.
pub open spec fn is_stamp(t: Seq<char>) -> bool {
    exists|y: int, mo: nat, d: nat, h: nat, mi: nat, s: nat|
        -262144 <= y <= 262143 && 1 <= mo <= 12 && 1 <= d <= 31 && h <= 23 && mi <= 59 && s <= 60
            && t == #[trigger] stamp_text(y, mo, d, h, mi, s)
}

} // verus!
