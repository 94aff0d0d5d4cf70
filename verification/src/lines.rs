//! Texts cut at a character: into lines, and into what stands before and
//! after a separator.

use vstd::prelude::*;
use crate::text::{chars_of, text_of, text_views};

verus! {

/// How many characters of `text` stand before the first `c`; all of them
/// where there is no `c`.
pub open spec fn position(text: Seq<char>, c: char) -> int
    decreases text.len(),
{
    if text.len() == 0 || text[0] == c {
        0
    } else {
        1 + position(text.drop_first(), c)
    }
}

/// A line without the carriage return that ends it, if one does.
pub open spec fn without_return(line: Seq<char>) -> Seq<char> {
    if line.len() > 0 && line.last() == '\r' {
        line.drop_last()
    } else {
        line
    }
}

/// The lines of a text: what stands between line feeds, each without a
/// carriage return directly before the line feed. What follows the last
/// line feed is a line as it stands, unless it is empty.
pub open spec fn lines_of(text: Seq<char>) -> Seq<Seq<char>>
    decreases text.len(),
{
    if text.len() == 0 {
        Seq::empty()
    } else {
        let end = position(text, '\n');
        if 0 <= end < text.len() {
            seq![without_return(text.take(end))] + lines_of(text.skip(end + 1))
        } else {
            seq![text]
        }
    }
}

/// What stands before and after the first `c` of a text that has one.
pub open spec fn split_at_first(text: Seq<char>, c: char) -> Option<(Seq<char>, Seq<char>)> {
    let at = position(text, c);
    if 0 <= at < text.len() {
        Some((text.take(at), text.skip(at + 1)))
    } else {
        None
    }
}

pub proof fn lemma_position(text: Seq<char>, c: char)
    ensures
        0 <= position(text, c) <= text.len(),
        forall|j: int| 0 <= j < position(text, c) ==> text[j] != c,
        position(text, c) < text.len() ==> text[position(text, c)] == c,
    decreases text.len(),
{
    if text.len() > 0 && text[0] != c {
        let rest = text.drop_first();
        lemma_position(rest, c);
        assert forall|j: int| 0 <= j < position(text, c) implies text[j] != c by {
            if j > 0 {
                assert(text[j] == rest[j - 1]);
            }
        }
    }
}

/// The place of the first `c` is the only place with `c` and none before.
pub proof fn lemma_position_unique(text: Seq<char>, c: char, at: int)
    requires
        0 <= at <= text.len(),
        forall|j: int| 0 <= j < at ==> text[j] != c,
        at < text.len() ==> text[at] == c,
    ensures
        position(text, c) == at,
{
    lemma_position(text, c);
}

/// The place, from `from` on, of the first `c`; the length where there is none.
pub fn find_char(chars: &Vec<char>, from: usize, c: char) -> (at: usize)
    requires
        from <= chars@.len(),
    ensures
        from <= at <= chars@.len(),
        at - from == position(chars@.skip(from as int), c),
{
    let mut at: usize = from;
    while at < chars.len() && chars[at] != c
        invariant
            from <= at <= chars@.len(),
            forall|j: int| from <= j < at ==> chars@[j] != c,
        decreases chars@.len() - at,
    {
        at = at + 1;
    }
    proof {
        lemma_position_unique(chars@.skip(from as int), c, at - from);
    }
    at
}

/// The characters from `from` up to `to`.
pub fn slice_chars(chars: &Vec<char>, from: usize, to: usize) -> (piece: Vec<char>)
    requires
        from <= to <= chars@.len(),
    ensures
        piece@ == chars@.subrange(from as int, to as int),
{
    let mut piece: Vec<char> = Vec::new();
    let mut i: usize = from;
    while i < to
        invariant
            from <= i <= to <= chars@.len(),
            piece@ == chars@.subrange(from as int, i as int),
        decreases to - i,
    {
        piece.push(chars[i]);
        assert(chars@.subrange(from as int, i + 1) =~= chars@.subrange(from as int, i as int).push(
            chars@[i as int],
        ));
        i = i + 1;
    }
    piece
}

/// The lines of a text.
pub fn split_lines(text: &str) -> (lines: Vec<String>)
    ensures
        text_views(lines@) == lines_of(text@),
{
    let chars = chars_of(text);
    let mut lines: Vec<String> = Vec::new();
    let mut start: usize = 0;
    proof {
        assert(chars@.skip(0) =~= chars@);
        assert(text_views(lines@) + lines_of(chars@.skip(0)) =~= lines_of(chars@));
    }
    while start < chars.len()
        invariant
            start <= chars@.len(),
            text_views(lines@) + lines_of(chars@.skip(start as int)) == lines_of(chars@),
        decreases chars@.len() - start,
    {
        let ghost rest = chars@.skip(start as int);
        let ghost shown = text_views(lines@);
        let end = find_char(&chars, start, '\n');
        if end < chars.len() {
            let mut stop = end;
            if stop > start && chars[stop - 1] == '\r' {
                stop = stop - 1;
            }
            let line = slice_chars(&chars, start, stop);
            proof {
                assert(rest.take(end - start) =~= chars@.subrange(start as int, end as int));
                assert(line@ =~= without_return(rest.take(end - start)));
                assert(rest.skip(end - start + 1) =~= chars@.skip(end + 1));
            }
            let shown_line = text_of(&line);
            lines.push(shown_line);
            proof {
                assert(text_views(lines@) =~= shown.push(line@));
                assert(shown.push(line@) + lines_of(chars@.skip(end + 1)) =~= shown + lines_of(rest));
            }
            start = end + 1;
        } else {
            let line = slice_chars(&chars, start, end);
            proof {
                assert(line@ =~= rest);
                assert(chars@.skip(chars@.len() as int) =~= Seq::<char>::empty());
            }
            let shown_line = text_of(&line);
            lines.push(shown_line);
            proof {
                assert(text_views(lines@) =~= shown.push(line@));
                assert(shown.push(line@) + lines_of(chars@.skip(chars@.len() as int)) =~= shown
                    + lines_of(rest));
            }
            start = chars.len();
        }
    }
    proof {
        assert(chars@.skip(chars@.len() as int) =~= Seq::<char>::empty());
        assert(text_views(lines@) + Seq::<Seq<char>>::empty() =~= text_views(lines@));
    }
    lines
}

/// What stands before and after the first `c` of a text, if it has one.
pub fn split_once(text: &str, c: char) -> (parts: Option<(String, String)>)
    ensures
        match parts {
            Some((before, after)) => split_at_first(text@, c) == Some((before@, after@)),
            None => split_at_first(text@, c) is None,
        },
{
    let chars = chars_of(text);
    let at = find_char(&chars, 0, c);
    proof {
        assert(chars@.skip(0) =~= chars@);
    }
    if at < chars.len() {
        let before = slice_chars(&chars, 0, at);
        let after = slice_chars(&chars, at + 1, chars.len());
        proof {
            assert(before@ =~= chars@.take(at as int));
            assert(after@ =~= chars@.skip(at + 1));
        }
        Some((text_of(&before), text_of(&after)))
    } else {
        None
    }
}

} // verus!
