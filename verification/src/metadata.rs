//! Metadata that packages declare for their distribution targets.

use vstd::prelude::*;
use vstd::string::StringExecFns;
use crate::paths::{join_path, joined, strip_root, without_root};
use crate::text::{chars_of, text_of};

verus! {

/// A copy command instruction.
///
/// `source` indicate the files or folders to copy, possibly using glob patterns.
/// `destination` indicates the destination of the copy operation.
///
/// If `source` is a relative path, it is relative to the current package root.
/// If `destination` is always made relative to the target root.
///
/// A copy never renames files.
#[derive(Debug, Clone, Ord, PartialOrd, Eq, PartialEq)]
pub struct CopyCommand {
    pub source: String,
    pub destination: String,
}

/// What follows the last separator of a path; the whole path where it has
/// no separator.
pub open spec fn last_segment(path: Seq<char>) -> Seq<char>
    decreases path.len(),
{
    if path.len() == 0 || path.last() == '/' {
        Seq::empty()
    } else {
        last_segment(path.drop_last()).push(path.last())
    }
}

/// What follows the last separator of a path.
pub fn file_name_of(path: &str) -> (name: String)
    ensures
        name@ == last_segment(path@),
{
    let chars = chars_of(path);
    let mut start: usize = chars.len();
    proof {
        assert(chars@.take(chars@.len() as int) =~= chars@);
        assert(chars@.subrange(chars@.len() as int, chars@.len() as int) =~= Seq::<char>::empty());
        assert(last_segment(chars@) + Seq::<char>::empty() =~= last_segment(chars@));
    }
    while start > 0 && chars[start - 1] != '/'
        invariant
            start <= chars@.len(),
            last_segment(chars@.take(start as int)) + chars@.subrange(
                start as int,
                chars@.len() as int,
            ) == last_segment(chars@),
            forall|j: int| start <= j < chars@.len() ==> chars@[j] != '/',
        decreases start,
    {
        start = start - 1;
        proof {
            let longer = chars@.take(start + 1);
            assert(longer.drop_last() =~= chars@.take(start as int));
            assert(longer.last() == chars@[start as int]);
            assert(last_segment(longer) == last_segment(chars@.take(start as int)).push(
                chars@[start as int],
            ));
            assert(last_segment(chars@.take(start as int)) + chars@.subrange(
                start as int,
                chars@.len() as int,
            ) =~= last_segment(longer) + chars@.subrange(start + 1, chars@.len() as int));
        }
    }
    let mut name: Vec<char> = Vec::new();
    let mut i: usize = start;
    while i < chars.len()
        invariant
            start <= i <= chars@.len(),
            name@ == chars@.subrange(start as int, i as int),
        decreases chars@.len() - i,
    {
        name.push(chars[i]);
        assert(chars@.subrange(start as int, i + 1) =~= chars@.subrange(start as int, i as int).push(
            chars@[i as int],
        ));
        i = i + 1;
    }
    proof {
        assert(last_segment(chars@.take(start as int)) =~= Seq::<char>::empty());
        assert(name@ =~= last_segment(chars@));
    }
    text_of(&name)
}

impl CopyCommand {
    /// The pattern that names the files to copy: the source, under the
    /// package root where it is relative.
    pub fn source_pattern(&self, package_root: &str) -> (pattern: String)
        ensures
            pattern@ == joined(package_root@, self.source@),
    {
        join_path(package_root, self.source.as_str())
    }

    /// Where the files are copied to: the destination, made relative, under
    /// the target root.
    pub fn destination(&self, target_root: &str) -> (path: String)
        ensures
            path@ == joined(target_root@, without_root(self.destination@)),
    {
        let relative = strip_root(self.destination.as_str());
        join_path(target_root, relative.as_str())
    }

    /// The text shown for the command.
    pub fn to_string(&self) -> (text: String)
        ensures
            text@ == "copy '"@ + self.source@ + "' -> '"@ + self.destination@ + "'"@,
    {
        let mut text = "copy '".to_owned();
        text.append(self.source.as_str());
        text.append("' -> '");
        text.append(self.destination.as_str());
        text.append("'");
        text
    }
}

} // verus!
