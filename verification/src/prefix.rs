//! Fixed-width big-endian counters, written before every variable-length
//! payload of an encoded item.

use vstd::prelude::*;

verus! {

/// Number of bytes of a length or count prefix.
pub const PREFIX_WIDTH: usize = 16;

/// `256` to the power `width`.
pub open spec fn radix_pow(width: nat) -> nat
    decreases width,
{
    if width == 0 {
        1
    } else {
        256 * radix_pow((width - 1) as nat)
    }
}

/// The big-endian digits, in base 256, of `n`, in exactly `width` bytes.
/// Digits beyond the width are dropped.
pub open spec fn be_bytes(n: nat, width: nat) -> Seq<u8>
    decreases width,
{
    if width == 0 {
        Seq::empty()
    } else {
        be_bytes(n / 256, (width - 1) as nat).push((n % 256) as u8)
    }
}

/// The prefix that announces a payload of `n` bytes, or a list of `n` items.
pub open spec fn length_prefix(n: nat) -> Seq<u8> {
    be_bytes(n, PREFIX_WIDTH as nat)
}

/// The largest count that a prefix can hold is below this bound.
pub open spec fn prefix_bound() -> nat {
    0x1_0000_0000_0000_0000_0000_0000_0000_0000nat
}

pub proof fn lemma_be_bytes_len(n: nat, width: nat)
    ensures
        be_bytes(n, width).len() == width,
    decreases width,
{
    if width > 0 {
        lemma_be_bytes_len(n / 256, (width - 1) as nat);
    }
}

/// Two counts that fit the width and have the same digits are equal.
pub proof fn lemma_be_bytes_injective(a: nat, b: nat, width: nat)
    requires
        a < radix_pow(width),
        b < radix_pow(width),
        be_bytes(a, width) == be_bytes(b, width),
    ensures
        a == b,
    decreases width,
{
    if width > 0 {
        let w = (width - 1) as nat;
        let pa = be_bytes(a / 256, w);
        let pb = be_bytes(b / 256, w);
        assert(pa.push((a % 256) as u8).last() == (a % 256) as u8);
        assert(pb.push((b % 256) as u8).last() == (b % 256) as u8);
        assert(a % 256 == b % 256);
        assert(pa =~= pa.push((a % 256) as u8).drop_last());
        assert(pb =~= pb.push((b % 256) as u8).drop_last());
        lemma_be_bytes_injective(a / 256, b / 256, w);
    }
}

pub proof fn lemma_prefix_bound()
    ensures
        radix_pow(PREFIX_WIDTH as nat) == prefix_bound(),
{
    reveal_with_fuel(radix_pow, 17);
}

/// Two counts below the bound with the same prefix are equal.
pub proof fn lemma_length_prefix_injective(a: nat, b: nat)
    requires
        a < prefix_bound(),
        b < prefix_bound(),
        length_prefix(a) == length_prefix(b),
    ensures
        a == b,
{
    lemma_prefix_bound();
    lemma_be_bytes_injective(a, b, PREFIX_WIDTH as nat);
}

/// Appends the prefix for `n` to `out`.
pub fn push_length_prefix(out: &mut Vec<u8>, n: usize)
    ensures
        final(out)@ == old(out)@ + length_prefix(n as nat),
{
    let mut digits: Vec<u8> = Vec::new();
    let mut k: usize = 0;
    while k < PREFIX_WIDTH
        invariant
            k <= PREFIX_WIDTH,
            digits@.len() == k,
        decreases PREFIX_WIDTH - k,
    {
        digits.push(0u8);
        k = k + 1;
    }
    let mut rest: usize = n;
    let mut i: usize = PREFIX_WIDTH;
    while i > 0
        invariant
            i <= PREFIX_WIDTH,
            digits@.len() == PREFIX_WIDTH,
            length_prefix(n as nat) == be_bytes(rest as nat, i as nat) + digits@.subrange(
                i as int,
                PREFIX_WIDTH as int,
            ),
        decreases i,
    {
        let ghost before = digits@;
        i = i - 1;
        digits.set(i, (rest % 256) as u8);
        proof {
            let tail = before.subrange(i + 1, PREFIX_WIDTH as int);
            let head = be_bytes((rest / 256) as nat, i as nat);
            assert(be_bytes(rest as nat, (i + 1) as nat) == head.push((rest % 256) as u8));
            assert(digits@.subrange(i as int, PREFIX_WIDTH as int) =~= seq![(rest % 256) as u8]
                + tail);
            assert(head.push((rest % 256) as u8) + tail =~= head + (seq![(rest % 256) as u8]
                + tail));
        }
        rest = rest / 256;
    }
    assert(digits@ =~= length_prefix(n as nat)) by {
        assert(be_bytes(rest as nat, 0) =~= Seq::<u8>::empty());
        assert(digits@.subrange(0, PREFIX_WIDTH as int) =~= digits@);
    }
    let ghost start = out@;
    let mut j: usize = 0;
    while j < PREFIX_WIDTH
        invariant
            j <= PREFIX_WIDTH,
            digits@.len() == PREFIX_WIDTH,
            out@ == start + digits@.subrange(0, j as int),
        decreases PREFIX_WIDTH - j,
    {
        out.push(digits[j]);
        j = j + 1;
        assert(out@ =~= start + digits@.subrange(0, j as int));
    }
    assert(digits@.subrange(0, PREFIX_WIDTH as int) =~= digits@);
}

} // verus!
