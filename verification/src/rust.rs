//! The target runtime of the toolchain, read from the configuration that
//! the compiler prints.

use vstd::prelude::*;
use vstd::string::{StrSliceExecFns, StringExecFns};
use crate::errors::{contextualized, is_text_or_error, plain, Error, ErrorView};
use crate::lines::{lines_of, split_at_first, split_lines, split_once};
use crate::text::{same_text, text_views};

verus! {

/// Whether a text stands between two double quotes.
pub open spec fn is_quoted(s: Seq<char>) -> bool {
    s.len() >= 2 && s[0] == '"' && s.last() == '"'
}

/// What stands between the quotes of a quoted text.
pub open spec fn unquoted(s: Seq<char>) -> Seq<char> {
    s.subrange(1, s.len() - 1)
}

/// The error for a text that is not quoted.
pub open spec fn unquote_error(s: Seq<char>) -> ErrorView {
    ErrorView {
        description: "failed to unquote string"@,
        explanation: Some("The string was supposed to be quoted but it wasn't."@),
        source: None,
        output: Some("s: "@ + s),
    }
}

/// What stands between the quotes of a text; an error for a text that does
/// not begin and end with a double quote of its own.
pub fn unquote(s: &str) -> (r: Result<&str, Error>)
    ensures
        match r {
            Ok(inner) => is_quoted(s@) && inner@ == unquoted(s@),
            Err(error) => !is_quoted(s@) && error@ == unquote_error(s@),
        },
{
    let len = s.unicode_len();
    if len >= 2 && s.get_char(0) == '"' && s.get_char(len - 1) == '"' {
        Ok(s.substring_char(1, len - 1))
    } else {
        let mut output = "s: ".to_owned();
        output.append(s);
        Err(
            Error::new("failed to unquote string").with_output(output.as_str()).with_explanation(
                "The string was supposed to be quoted but it wasn't.",
            ),
        )
    }
}

/// The parts of a target runtime that were read so far.
pub struct TargetParts {
    pub arch: Option<Seq<char>>,
    pub vendor: Option<Seq<char>>,
    pub os: Option<Seq<char>>,
    pub env: Option<Seq<char>>,
}

/// The value of a setting, without its quotes; the error where it is not
/// quoted, with the name of the setting as context.
pub open spec fn setting_value(value: Seq<char>, context: Seq<char>) -> Result<
    Seq<char>,
    ErrorView,
> {
    if is_quoted(value) {
        Ok(unquoted(value))
    } else {
        Err(contextualized(unquote_error(value), context))
    }
}

/// The parts after a line was read: a line `key=value` for one of the four
/// parts sets that part; any other line changes nothing.
pub open spec fn after_line(parts: TargetParts, line: Seq<char>) -> Result<TargetParts, ErrorView> {
    match split_at_first(line, '=') {
        None => Ok(parts),
        Some((key, value)) => if key == "target_arch"@ {
            match setting_value(value, "failed to unquote target_arch"@) {
                Ok(v) => Ok(TargetParts { arch: Some(v), ..parts }),
                Err(e) => Err(e),
            }
        } else if key == "target_vendor"@ {
            match setting_value(value, "failed to unquote target_vendor"@) {
                Ok(v) => Ok(TargetParts { vendor: Some(v), ..parts }),
                Err(e) => Err(e),
            }
        } else if key == "target_os"@ {
            match setting_value(value, "failed to unquote target_os"@) {
                Ok(v) => Ok(TargetParts { os: Some(v), ..parts }),
                Err(e) => Err(e),
            }
        } else if key == "target_env"@ {
            match setting_value(value, "failed to unquote target_env"@) {
                Ok(v) => Ok(TargetParts { env: Some(v), ..parts }),
                Err(e) => Err(e),
            }
        } else {
            Ok(parts)
        },
    }
}

/// The parts after some lines were read in order; the error of the first
/// line that gives one.
pub open spec fn after_lines(parts: TargetParts, lines: Seq<Seq<char>>) -> Result<
    TargetParts,
    ErrorView,
>
    decreases lines.len(),
{
    if lines.len() == 0 {
        Ok(parts)
    } else {
        match after_line(parts, lines[0]) {
            Ok(next) => after_lines(next, lines.drop_first()),
            Err(e) => Err(e),
        }
    }
}

/// The target runtime made of four parts; an error where one is missing.
pub open spec fn target_of(parts: TargetParts) -> Result<Seq<char>, ErrorView> {
    match (parts.arch, parts.vendor, parts.os, parts.env) {
        (Some(arch), Some(vendor), Some(os), Some(env)) => Ok(
            arch + seq!['-'] + vendor + seq!['-'] + os + seq!['-'] + env,
        ),
        _ => Err(plain("failed to determine current Rust runtime target"@)),
    }
}

/// The target runtime that the printed configuration of a compiler names.
pub open spec fn target_runtime_of(cfg_output: Seq<char>) -> Result<Seq<char>, ErrorView> {
    match after_lines(
        TargetParts { arch: None, vendor: None, os: None, env: None },
        lines_of(cfg_output),
    ) {
        Ok(parts) => target_of(parts),
        Err(e) => Err(e),
    }
}

pub open spec fn optional_view(text: Option<String>) -> Option<Seq<char>> {
    match text {
        Some(s) => Some(s@),
        None => None,
    }
}

fn read_setting(value: &str, context: &str) -> (r: Result<String, Error>)
    ensures
        is_text_or_error(r, setting_value(value@, context@)),
{
    match unquote(value) {
        Ok(inner) => Ok(inner.to_owned()),
        Err(error) => {
            proof {
                reveal_strlit("failed to unquote string");
            }
            Err(error.with_context(context))
        },
    }
}

/// The target runtime that the printed configuration of a compiler names:
/// its architecture, vendor, operating system and environment, with `-`
/// between them.
pub fn parse_target_runtime(cfg_output: &str) -> (r: Result<String, Error>)
    ensures
        is_text_or_error(r, target_runtime_of(cfg_output@)),
{
    let lines = split_lines(cfg_output);
    let mut arch: Option<String> = None;
    let mut vendor: Option<String> = None;
    let mut os: Option<String> = None;
    let mut env: Option<String> = None;
    let ghost start = TargetParts { arch: None, vendor: None, os: None, env: None };
    let mut i: usize = 0;
    assert(text_views(lines@).skip(0) =~= text_views(lines@));
    while i < lines.len()
        invariant
            i <= lines@.len(),
            text_views(lines@) == lines_of(cfg_output@),
            start == (TargetParts { arch: None, vendor: None, os: None, env: None }),
            after_lines(start, text_views(lines@)) == after_lines(
                TargetParts {
                    arch: optional_view(arch),
                    vendor: optional_view(vendor),
                    os: optional_view(os),
                    env: optional_view(env),
                },
                text_views(lines@).skip(i as int),
            ),
        decreases lines@.len() - i,
    {
        let ghost rest = text_views(lines@).skip(i as int);
        proof {
            assert(rest[0] == lines@[i as int]@);
            assert(rest.drop_first() =~= text_views(lines@).skip(i + 1));
        }
        if let Some((key, value)) = split_once(lines[i].as_str(), '=') {
            if same_text(key.as_str(), "target_arch") {
                match read_setting(value.as_str(), "failed to unquote target_arch") {
                    Ok(v) => {
                        arch = Some(v);
                    },
                    Err(e) => {
                        return Err(e);
                    },
                }
            } else if same_text(key.as_str(), "target_vendor") {
                match read_setting(value.as_str(), "failed to unquote target_vendor") {
                    Ok(v) => {
                        vendor = Some(v);
                    },
                    Err(e) => {
                        return Err(e);
                    },
                }
            } else if same_text(key.as_str(), "target_os") {
                match read_setting(value.as_str(), "failed to unquote target_os") {
                    Ok(v) => {
                        os = Some(v);
                    },
                    Err(e) => {
                        return Err(e);
                    },
                }
            } else if same_text(key.as_str(), "target_env") {
                match read_setting(value.as_str(), "failed to unquote target_env") {
                    Ok(v) => {
                        env = Some(v);
                    },
                    Err(e) => {
                        return Err(e);
                    },
                }
            }
        }
        i = i + 1;
    }
    assert(text_views(lines@).skip(lines@.len() as int) =~= Seq::<Seq<char>>::empty());
    match (arch, vendor, os, env) {
        (Some(arch), Some(vendor), Some(os), Some(env)) => {
            let mut target = arch;
            target.append("-");
            target.append(vendor.as_str());
            target.append("-");
            target.append(os.as_str());
            target.append("-");
            target.append(env.as_str());
            proof {
                reveal_strlit("-");
                assert("-"@ =~= seq!['-']);
            }
            Ok(target)
        },
        _ => Err(Error::new("failed to determine current Rust runtime target")),
    }
}

/// Whether `target_runtime` is the target runtime that the printed
/// configuration of the compiler names.
pub fn is_current_target_runtime(target_runtime: &str, cfg_output: &str) -> (r: Result<bool, Error>)
    ensures
        match (r, target_runtime_of(cfg_output@)) {
            (Ok(same), Ok(current)) => same == (target_runtime@ == current),
            (Err(error), Err(wanted)) => error@ == wanted,
            _ => false,
        },
{
    match parse_target_runtime(cfg_output) {
        Ok(current) => Ok(same_text(target_runtime, current.as_str())),
        Err(error) => Err(error),
    }
}

} // verus!
