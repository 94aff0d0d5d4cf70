//! The hashes that were recorded for the versions of a package, and what
//! recording the current hash changes.

use vstd::prelude::*;
use vstd::string::StringExecFns;
use crate::errors::{plain, Error, ErrorView};
use crate::text::same_text;

verus! {

/// What tagging a version does.
#[derive(Debug, Clone, Copy, PartialEq, Eq, Structural)]
pub enum Tagging {
    /// The version has this hash already: nothing is recorded.
    UpToDate,
    /// The version has another hash, which is replaced because the run is
    /// forced.
    Replace,
    /// The version has no hash yet: the hash is recorded.
    Record,
    /// The version has another hash and the run is not forced: tagging fails.
    Conflict,
}

/// What tagging a version with `hash` does, where `recorded` is the hash
/// that was recorded for the version, if any.
pub open spec fn tagging_of(recorded: Option<Seq<char>>, hash: Seq<char>, force: bool) -> Tagging {
    match recorded {
        None => Tagging::Record,
        Some(current) => if current == hash {
            Tagging::UpToDate
        } else if force {
            Tagging::Replace
        } else {
            Tagging::Conflict
        },
    }
}

/// The error for a version that has another hash.
pub open spec fn conflict_error(version: Seq<char>, current_hash: Seq<char>) -> ErrorView {
    ErrorView {
        explanation: Some(
            "A tag for version `"@ + version + "` already exists with a different hash `"@
                + current_hash
                + "`. You may need to increment the package version number and try again."@,
        ),
        ..plain("tag already exists for version"@)
    }
}

pub open spec fn optional_hash(recorded: Option<&str>) -> Option<Seq<char>> {
    match recorded {
        Some(hash) => Some(hash@),
        None => None,
    }
}

/// Whether the hash that was recorded for a version is the current hash.
pub fn tag_matches(recorded: Option<&str>, hash: &str) -> (matches: bool)
    ensures
        matches == (optional_hash(recorded) == Some(hash@)),
{
    match recorded {
        Some(current) => same_text(current, hash),
        None => false,
    }
}

/// What tagging a version with `hash` does.
pub fn tagging(recorded: Option<&str>, hash: &str, force: bool) -> (decision: Tagging)
    ensures
        decision == tagging_of(optional_hash(recorded), hash@, force),
{
    match recorded {
        None => Tagging::Record,
        Some(current) => {
            if same_text(current, hash) {
                Tagging::UpToDate
            } else if force {
                Tagging::Replace
            } else {
                Tagging::Conflict
            }
        },
    }
}

/// The error for a version that has another hash.
pub fn conflict(version: &str, current_hash: &str) -> (error: Error)
    ensures
        error@ == conflict_error(version@, current_hash@),
{
    let mut explanation = "A tag for version `".to_owned();
    explanation.append(version);
    explanation.append("` already exists with a different hash `");
    explanation.append(current_hash);
    explanation.append("`. You may need to increment the package version number and try again.");
    Error::new("tag already exists for version").with_explanation(explanation.as_str())
}

} // verus!
