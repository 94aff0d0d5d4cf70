//! Paths as text, with `/` between their components: how a path is made
//! relative, and how one path is appended to another.

use vstd::prelude::*;
use crate::text::{chars_of, text_of};

verus! {

/// Whether a path starts at the root.
pub open spec fn is_absolute(path: Seq<char>) -> bool {
    path.len() > 0 && path[0] == '/'
}

/// A path without the separators it begins with.
pub open spec fn without_root(path: Seq<char>) -> Seq<char>
    decreases path.len(),
{
    if is_absolute(path) {
        without_root(path.drop_first())
    } else {
        path
    }
}

/// `path` appended to `base`: a path that starts at the root replaces the
/// base, and any other follows it, after one separator where the base does
/// not end with one.
pub open spec fn joined(base: Seq<char>, path: Seq<char>) -> Seq<char> {
    if is_absolute(path) || base.len() == 0 {
        path
    } else if base.last() == '/' {
        base + path
    } else {
        base + seq!['/'] + path
    }
}

/// The directory `root` as the beginning of the paths below it: with one
/// separator at its end.
pub open spec fn as_prefix(root: Seq<char>) -> Seq<char> {
    if root.len() > 0 && root.last() == '/' {
        root
    } else {
        root + seq!['/']
    }
}

/// What follows `root` and a separator in a path that lies below `root`.
pub open spec fn below(path: Seq<char>, root: Seq<char>) -> Option<Seq<char>> {
    if as_prefix(root).is_prefix_of(path) {
        Some(path.skip(as_prefix(root).len() as int))
    } else {
        None
    }
}

/// What follows `root` and a separator in `path`, if `path` lies below
/// `root`.
pub fn relative_to(path: &str, root: &str) -> (rest: Option<String>)
    ensures
        match rest {
            Some(rest) => below(path@, root@) == Some(rest@),
            None => below(path@, root@) is None,
        },
{
    let chars = chars_of(path);
    let mut prefix = chars_of(root);
    if prefix.len() == 0 || prefix[prefix.len() - 1] != '/' {
        prefix.push('/');
    }
    assert(prefix@ =~= as_prefix(root@));
    if chars.len() < prefix.len() {
        return None;
    }
    let mut i: usize = 0;
    while i < prefix.len()
        invariant
            i <= prefix@.len() <= chars@.len(),
            chars@ == path@,
            prefix@ == as_prefix(root@),
            forall|j: int| 0 <= j < i ==> chars@[j] == prefix@[j],
        decreases prefix@.len() - i,
    {
        if chars[i] != prefix[i] {
            assert(chars@.subrange(0, prefix@.len() as int)[i as int] != prefix@[i as int]);
            return None;
        }
        i = i + 1;
    }
    assert(prefix@ =~= chars@.subrange(0, prefix@.len() as int));
    let mut rest: Vec<char> = Vec::new();
    let mut k: usize = prefix.len();
    while k < chars.len()
        invariant
            prefix@.len() <= k <= chars@.len(),
            rest@ == chars@.subrange(prefix@.len() as int, k as int),
        decreases chars@.len() - k,
    {
        rest.push(chars[k]);
        assert(chars@.subrange(prefix@.len() as int, k + 1) =~= chars@.subrange(
            prefix@.len() as int,
            k as int,
        ).push(chars@[k as int]));
        k = k + 1;
    }
    assert(rest@ =~= chars@.skip(prefix@.len() as int));
    Some(text_of(&rest))
}

/// Whether a path starts at the root.
pub fn starts_at_root(path: &str) -> (absolute: bool)
    ensures
        absolute == is_absolute(path@),
{
    let chars = chars_of(path);
    chars.len() > 0 && chars[0] == '/'
}

/// A path without the separators it begins with.
pub fn strip_root(path: &str) -> (relative: String)
    ensures
        relative@ == without_root(path@),
{
    let chars = chars_of(path);
    let mut start: usize = 0;
    assert(chars@.subrange(0, chars@.len() as int) =~= chars@);
    while start < chars.len() && chars[start] == '/'
        invariant
            start <= chars@.len(),
            without_root(chars@) == without_root(chars@.subrange(start as int, chars@.len() as int)),
        decreases chars@.len() - start,
    {
        assert(chars@.subrange(start as int, chars@.len() as int).drop_first() =~= chars@.subrange(
            start + 1,
            chars@.len() as int,
        ));
        start = start + 1;
    }
    let mut rest: Vec<char> = Vec::new();
    let mut i: usize = start;
    while i < chars.len()
        invariant
            start <= i <= chars@.len(),
            rest@ == chars@.subrange(start as int, i as int),
        decreases chars@.len() - i,
    {
        rest.push(chars[i]);
        assert(chars@.subrange(start as int, i + 1) =~= chars@.subrange(start as int, i as int).push(
            chars@[i as int],
        ));
        i = i + 1;
    }
    text_of(&rest)
}

/// `path` appended to `base`.
pub fn join_path(base: &str, path: &str) -> (whole: String)
    ensures
        whole@ == joined(base@, path@),
{
    let tail = chars_of(path);
    if tail.len() > 0 && tail[0] == '/' {
        return text_of(&tail);
    }
    let mut whole = chars_of(base);
    if whole.len() > 0 && whole[whole.len() - 1] != '/' {
        whole.push('/');
    }
    let ghost head = whole@;
    let mut i: usize = 0;
    while i < tail.len()
        invariant
            i <= tail@.len(),
            whole@ == head + tail@.take(i as int),
        decreases tail@.len() - i,
    {
        whole.push(tail[i]);
        assert(tail@.take(i + 1) =~= tail@.take(i as int).push(tail@[i as int]));
        assert(whole@ =~= head + tail@.take(i + 1));
        i = i + 1;
    }
    assert(tail@.take(tail@.len() as int) =~= tail@);
    assert(whole@ =~= joined(base@, path@));
    text_of(&whole)
}

} // verus!
