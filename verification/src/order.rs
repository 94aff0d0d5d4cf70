//! The order of texts: byte by byte over their UTF-8 form, a shorter text
//! before each of its extensions.

use vstd::prelude::*;
use vstd::string::StringSliceAdditionalSpecFns;
use vstd::utf8::encode_utf8;
use crate::text::lemma_utf8_injective;

verus! {

/// Whether `a` comes before `b`, byte by byte.
pub open spec fn bytes_before(a: Seq<u8>, b: Seq<u8>) -> bool
    decreases a.len(),
{
    if b.len() == 0 {
        false
    } else if a.len() == 0 {
        true
    } else if a[0] != b[0] {
        a[0] < b[0]
    } else {
        bytes_before(a.drop_first(), b.drop_first())
    }
}

/// Whether the text `a` comes before the text `b`.
pub open spec fn text_before(a: Seq<char>, b: Seq<char>) -> bool {
    bytes_before(encode_utf8(a), encode_utf8(b))
}

pub proof fn lemma_bytes_before_irreflexive(a: Seq<u8>)
    ensures
        !bytes_before(a, a),
    decreases a.len(),
{
    if a.len() > 0 {
        lemma_bytes_before_irreflexive(a.drop_first());
    }
}

pub proof fn lemma_bytes_before_transitive(a: Seq<u8>, b: Seq<u8>, c: Seq<u8>)
    requires
        bytes_before(a, b),
        bytes_before(b, c),
    ensures
        bytes_before(a, c),
    decreases a.len(),
{
    if a.len() > 0 && b.len() > 0 && c.len() > 0 && a[0] == b[0] && b[0] == c[0] {
        lemma_bytes_before_transitive(a.drop_first(), b.drop_first(), c.drop_first());
    }
}

/// Of two different byte strings one comes before the other.
pub proof fn lemma_bytes_before_total(a: Seq<u8>, b: Seq<u8>)
    requires
        !bytes_before(a, b),
        !bytes_before(b, a),
    ensures
        a == b,
    decreases a.len(),
{
    if a.len() == 0 || b.len() == 0 {
        assert(a =~= b);
    } else {
        lemma_bytes_before_total(a.drop_first(), b.drop_first());
        assert(a =~= seq![a[0]] + a.drop_first());
        assert(b =~= seq![b[0]] + b.drop_first());
    }
}

pub proof fn lemma_text_before_irreflexive(a: Seq<char>)
    ensures
        !text_before(a, a),
{
    lemma_bytes_before_irreflexive(encode_utf8(a));
}

pub proof fn lemma_text_before_transitive(a: Seq<char>, b: Seq<char>, c: Seq<char>)
    requires
        text_before(a, b),
        text_before(b, c),
    ensures
        text_before(a, c),
{
    lemma_bytes_before_transitive(encode_utf8(a), encode_utf8(b), encode_utf8(c));
}

/// Of two different texts one comes before the other.
pub proof fn lemma_text_before_total(a: Seq<char>, b: Seq<char>)
    requires
        !text_before(a, b),
        !text_before(b, a),
    ensures
        a == b,
{
    lemma_bytes_before_total(encode_utf8(a), encode_utf8(b));
    lemma_utf8_injective(a, b);
}

/// Whether the text `a` comes before the text `b`.
pub fn is_text_before(a: &str, b: &str) -> (before: bool)
    ensures
        before == text_before(a@, b@),
{
    let left = a.as_bytes();
    let right = b.as_bytes();
    let mut i: usize = 0;
    assert(left@.subrange(0, left@.len() as int) =~= left@);
    assert(right@.subrange(0, right@.len() as int) =~= right@);
    while i < left.len() && i < right.len()
        invariant
            i <= left@.len(),
            i <= right@.len(),
            left@ == a.spec_bytes(),
            right@ == b.spec_bytes(),
            bytes_before(left@, right@) == bytes_before(
                left@.subrange(i as int, left@.len() as int),
                right@.subrange(i as int, right@.len() as int),
            ),
        decreases left@.len() - i,
    {
        let ghost l = left@.subrange(i as int, left@.len() as int);
        let ghost r = right@.subrange(i as int, right@.len() as int);
        assert(l[0] == left@[i as int]);
        assert(r[0] == right@[i as int]);
        if left[i] != right[i] {
            return left[i] < right[i];
        }
        assert(l.drop_first() =~= left@.subrange(i + 1, left@.len() as int));
        assert(r.drop_first() =~= right@.subrange(i + 1, right@.len() as int));
        i = i + 1;
    }
    i < right.len()
}

/// Whether each element of `list` is before all that follow it.
pub open spec fn ascending_by<T>(list: Seq<T>, lt: spec_fn(T, T) -> bool) -> bool {
    forall|i: int, j: int| 0 <= i < j < list.len() ==> lt(#[trigger] list[i], #[trigger] list[j])
}

/// Whether nothing is before itself, and what is before something is before
/// all that this is before.
pub open spec fn is_strict_order<T>(lt: spec_fn(T, T) -> bool) -> bool {
    &&& forall|x: T| !#[trigger] lt(x, x)
    &&& forall|x: T, y: T, z: T| #[trigger] lt(x, y) && #[trigger] lt(y, z) ==> lt(x, z)
}

/// Two ascending lists with the same elements are the same list.
pub proof fn lemma_ascending_unique<T>(s: Seq<T>, t: Seq<T>, lt: spec_fn(T, T) -> bool)
    requires
        is_strict_order(lt),
        ascending_by(s, lt),
        ascending_by(t, lt),
        forall|d: T|
            #![trigger s.contains(d)]
            #![trigger t.contains(d)]
            s.contains(d) <==> t.contains(d),
    ensures
        s == t,
    decreases s.len(),
{
    if s.len() == 0 {
        if t.len() > 0 {
            assert(t.contains(t[0]));
        }
        assert(s =~= t);
    } else {
        let x = s.last();
        assert(s.contains(x));
        assert(t.contains(x));
        let y = t.last();
        assert(t.contains(y));
        assert(s.contains(y));
        let i = choose|i: int| 0 <= i < s.len() && s[i] == y;
        let j = choose|j: int| 0 <= j < t.len() && t[j] == x;
        if x != y {
            assert(lt(s[i], s[s.len() - 1]));
            assert(lt(t[j], t[t.len() - 1]));
            assert(lt(x, y) && lt(y, x));
            assert(lt(x, x));
        }
        let s0 = s.drop_last();
        let t0 = t.drop_last();
        assert forall|d: T|
            #![trigger s0.contains(d)]
            #![trigger t0.contains(d)]
            s0.contains(d) <==> t0.contains(d) by {
            if s0.contains(d) {
                let k = choose|k: int| 0 <= k < s0.len() && s0[k] == d;
                assert(s[k] == d);
                assert(lt(s[k], s[s.len() - 1]));
                assert(s.contains(d));
                let m = choose|m: int| 0 <= m < t.len() && t[m] == d;
                assert(t0[m] == d);
            }
            if t0.contains(d) {
                let k = choose|k: int| 0 <= k < t0.len() && t0[k] == d;
                assert(t[k] == d);
                assert(lt(t[k], t[t.len() - 1]));
                assert(t.contains(d));
                let m = choose|m: int| 0 <= m < s.len() && s[m] == d;
                assert(s0[m] == d);
            }
        }
        assert(ascending_by(s0, lt)) by {
            assert forall|a: int, b: int| 0 <= a < b < s0.len() implies lt(
                #[trigger] s0[a],
                #[trigger] s0[b],
            ) by {
                assert(lt(s[a], s[b]));
            }
        }
        assert(ascending_by(t0, lt)) by {
            assert forall|a: int, b: int| 0 <= a < b < t0.len() implies lt(
                #[trigger] t0[a],
                #[trigger] t0[b],
            ) by {
                assert(lt(t[a], t[b]));
            }
        }
        lemma_ascending_unique(s0, t0, lt);
        assert(s =~= s0.push(x));
        assert(t =~= t0.push(y));
    }
}

} // verus!
