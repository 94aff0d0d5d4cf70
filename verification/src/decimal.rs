//! Integers as decimal text.

use vstd::prelude::*;
use crate::text::text_of;

verus! {

/// The character for a decimal digit.
pub open spec fn digit(d: nat) -> char {
    (0x30 + d) as char
}

/// The decimal digits of a natural number, without leading zeros.
pub open spec fn decimal(n: nat) -> Seq<char>
    decreases n,
{
    if n < 10 {
        seq![digit(n)]
    } else {
        decimal(n / 10).push(digit(n % 10))
    }
}

/// An integer in decimal, with a minus sign before a negative one.
pub open spec fn signed_decimal(i: int) -> Seq<char> {
    if i < 0 {
        seq!['-'] + decimal((-i) as nat)
    } else {
        decimal(i as nat)
    }
}

/// The character for a decimal digit.
pub fn digit_of(d: u8) -> (c: char)
    requires
        d < 10,
    ensures
        c == digit(d as nat),
{
    (0x30 + d) as char
}

/// An integer in decimal, with a minus sign before a negative one.
pub fn format_i32(value: i32) -> (text: String)
    ensures
        text@ == signed_decimal(value as int),
{
    let negative = value < 0;
    let magnitude: u64 = if negative {
        (-(value as i64)) as u64
    } else {
        value as u64
    };
    let mut low: Vec<char> = Vec::new();
    let mut rest: u64 = magnitude;
    while rest >= 10
        invariant
            decimal(magnitude as nat) == decimal(rest as nat) + low@.reverse(),
        decreases rest,
    {
        let d = digit_of((rest % 10) as u8);
        let ghost before = low@;
        low.push(d);
        proof {
            assert(low@.reverse() =~= seq![d] + before.reverse());
            assert(decimal(rest as nat) == decimal((rest / 10) as nat).push(d));
            assert(decimal((rest / 10) as nat).push(d) + before.reverse() =~= decimal(
                (rest / 10) as nat,
            ) + low@.reverse());
        }
        rest = rest / 10;
    }
    let mut chars: Vec<char> = Vec::new();
    if negative {
        chars.push('-');
    }
    chars.push(digit_of(rest as u8));
    let ghost head = chars@;
    let mut i: usize = low.len();
    while i > 0
        invariant
            i <= low@.len(),
            chars@ == head + low@.reverse().take(low@.len() - i),
        decreases i,
    {
        i = i - 1;
        chars.push(low[i]);
        proof {
            let shown = low@.reverse();
            let k = low@.len() - i;
            assert(shown[k - 1] == low@[i as int]);
            assert(shown.take(k as int) =~= shown.take(k - 1).push(shown[k - 1]));
            assert(chars@ =~= head + shown.take(k as int));
        }
    }
    proof {
        assert(low@.reverse().take(low@.len() as int) =~= low@.reverse());
        assert(decimal(rest as nat) =~= seq![digit(rest as nat)]);
        assert(chars@ =~= signed_decimal(value as int));
    }
    text_of(&chars)
}

} // verus!
