//! The log files of telemetry snapshots: how they are named, which of them is
//! the most recent, and how one is shown.

use crate::text::{chars_of, decimal, decimal_string, match_at};
use vstd::prelude::*;
use vstd::string::StringExecFns;

verus! {

/// A JSON value of `serde_json`.
#[verifier::external_type_specification]
#[verifier::external_body]
pub struct ExJsonValue(serde_json::Value);

/// An error of `serde_json`.
#[verifier::external_type_specification]
#[verifier::external_body]
pub struct ExJsonError(serde_json::Error);

/// A file of the log directory.
#[derive(Debug, Clone, PartialEq, Eq)]
pub struct LogFile {
    /// The file's name.
    pub name: String,
    /// When the file was last modified, in nanoseconds since the epoch, where
    /// that is known.
    pub modified: Option<u64>,
}

/// The mathematical value of a `LogFile`.
pub struct LogFileView {
    pub name: Seq<char>,
    pub modified: Option<u64>,
}

impl View for LogFile {
    type V = LogFileView;

    open spec fn view(&self) -> LogFileView {
        LogFileView { name: self.name@, modified: self.modified }
    }
}

/// The name of the log file of the snapshot taken at `timestamp`.
pub open spec fn log_name(timestamp: u64) -> Seq<char> {
    "logs/system_log_"@ + decimal(timestamp as nat) + ".json"@
}

/// Whether a file name has the extension of a log: it ends in `.json`, and
/// something stands before that.
pub open spec fn is_log_name(name: Seq<char>) -> bool {
    let ext = ".json"@;
    name.len() > ext.len() && name.skip(name.len() - ext.len()) == ext
}

/// The rank of a modification time: an unknown time goes before every known
/// one.
pub open spec fn rank(modified: Option<u64>) -> int {
    match modified {
        Some(t) => t as int,
        None => -1,
    }
}

/// Whether the file at `index` is the most recent log among `files`: it is a
/// log, no log was modified later, and of the logs modified at the same time
/// it comes last.
pub open spec fn is_most_recent(files: Seq<LogFileView>, index: int) -> bool {
    &&& 0 <= index < files.len()
    &&& is_log_name(files[index].name)
    &&& forall|j: int|
        0 <= j < files.len() && is_log_name(#[trigger] files[j].name) ==> rank(files[j].modified)
            <= rank(files[index].modified)
    &&& forall|j: int|
        index < j < files.len() && is_log_name(#[trigger] files[j].name) ==> rank(
            files[j].modified,
        ) < rank(files[index].modified)
}

/// The views of a sequence of files.
pub open spec fn file_views(files: Seq<LogFile>) -> Seq<LogFileView> {
    files.map_values(|file: LogFile| file@)
}

/// `serde_json::from_str`, reading a `serde_json::Value`: the value that it
/// reads depends on the text alone, and so does whether it reads one.
#[verifier::external_body]
fn parse_json(raw: &str) -> (r: Result<serde_json::Value, serde_json::Error>)
    ensures
        match r {
            Ok(value) => json_layout(raw@) == Some(layout(value)),
            Err(_) => json_layout(raw@) is None,
        },
{
    serde_json::from_str(raw)
}

/// `serde_json::to_string_pretty`, applied to a `serde_json::Value`: the
/// text depends on the value alone. The call fails only where a value
/// refuses to be written, a map has a key that is no string, or the writer
/// fails; a `Value` has string keys, never refuses, and is written into a
/// vector, so the call gives a text.
#[verifier::external_body]
fn pretty_json(value: &serde_json::Value) -> (r: Result<String, serde_json::Error>)
    ensures
        r is Ok,
        r matches Ok(text) ==> text@ == layout(*value),
{
    serde_json::to_string_pretty(value)
}

/// The name of the log file of the snapshot taken at `timestamp`.
pub fn log_file_name(timestamp: u64) -> (r: String)
    ensures
        r@ == log_name(timestamp),
{
    let mut name = "logs/system_log_".to_owned();
    let number = decimal_string(timestamp);
    name.append(number.as_str());
    name.append(".json");
    name
}

/// Decides `is_log_name`.
pub fn names_log(name: &str) -> (r: bool)
    ensures
        r == is_log_name(name@),
{
    let chars = chars_of(name);
    let ext = chars_of(".json");
    if chars.len() > ext.len() {
        let at = chars.len() - ext.len();
        proof {
            assert(chars@.skip(at as int) == chars@.subrange(at as int, chars@.len() as int));
        }
        match_at(chars.as_slice(), ext.as_slice(), at)
    } else {
        false
    }
}

/// Whether a file modified at `a` counts as no older than one modified at
/// `b`.
fn no_older(a: Option<u64>, b: Option<u64>) -> (r: bool)
    ensures
        r == (rank(a) >= rank(b)),
{
    match (a, b) {
        (Some(x), Some(y)) => x >= y,
        (Some(_), None) => true,
        (None, Some(_)) => false,
        (None, None) => true,
    }
}

/// Finds the most recent log among the files of the log directory: the file
/// with the extension of a log that was modified last, and of several such
/// the one that comes last in `files`. There is none exactly when no file is
/// a log.
pub fn most_recent_log(files: &[LogFile]) -> (r: Option<usize>)
    ensures
        match r {
            Some(index) => is_most_recent(file_views(files@), index as int),
            None => forall|j: int|
                0 <= j < files@.len() ==> !is_log_name(#[trigger] file_views(files@)[j].name),
        },
{
    let ghost all = file_views(files@);
    let mut best: Option<usize> = None;
    let mut i: usize = 0;
    while i < files.len()
        invariant
            i <= files@.len(),
            all == file_views(files@),
            match best {
                Some(index) => index < i && is_most_recent(all.take(i as int), index as int),
                None => forall|j: int| 0 <= j < i ==> !is_log_name(#[trigger] all[j].name),
            },
        decreases files@.len() - i,
    {
        let ghost seen = all.take(i as int);
        let ghost next = all.take(i + 1);
        proof {
            assert(all[i as int] == files@[i as int]@);
            assert forall|j: int| 0 <= j < i implies #[trigger] next[j] == seen[j] by {}
            assert(next[i as int] == all[i as int]);
        }
        if names_log(files[i].name.as_str()) {
            let newer = match best {
                Some(index) => no_older(files[i].modified, files[index].modified),
                None => true,
            };
            if newer {
                proof {
                    assert(all[i as int] == files@[i as int]@);
                    match best {
                        Some(index) => {
                            assert(seen[index as int] == all[index as int]);
                        },
                        None => {},
                    }
                    assert forall|j: int|
                        0 <= j < next.len() && is_log_name(#[trigger] next[j].name) implies rank(
                        next[j].modified,
                    ) <= rank(next[i as int].modified) by {
                        if j < i {
                            assert(next[j] == seen[j]);
                            assert(seen[j] == all[j]);
                        }
                    }
                }
                best = Some(i);
            } else {
                proof {
                    let index = best->0;
                    assert(seen[index as int] == all[index as int]);
                    assert(next[index as int] == seen[index as int]);
                    assert forall|j: int|
                        0 <= j < next.len() && is_log_name(#[trigger] next[j].name) implies rank(
                        next[j].modified,
                    ) <= rank(next[index as int].modified) by {
                        if j < i {
                            assert(next[j] == seen[j]);
                        }
                    }
                    assert forall|j: int|
                        index < j < next.len() && is_log_name(
                            #[trigger] next[j].name,
                        ) implies rank(next[j].modified) < rank(next[index as int].modified) by {
                        if j < i {
                            assert(next[j] == seen[j]);
                        }
                    }
                }
            }
        } else {
            proof {
                match best {
                    Some(index) => {
                        assert(next[index as int] == seen[index as int]);
                        assert forall|j: int|
                            0 <= j < next.len() && is_log_name(
                                #[trigger] next[j].name,
                            ) implies rank(next[j].modified) <= rank(
                            next[index as int].modified,
                        ) by {
                            if j < i {
                                assert(next[j] == seen[j]);
                            }
                        }
                        assert forall|j: int|
                            index < j < next.len() && is_log_name(
                                #[trigger] next[j].name,
                            ) implies rank(next[j].modified) < rank(
                            next[index as int].modified,
                        ) by {
                            if j < i {
                                assert(next[j] == seen[j]);
                            }
                        }
                    },
                    None => {},
                }
            }
        }
        i += 1;
    }
    proof {
        assert(all.take(i as int) == all);
    }
    best
}

/// What is shown of a log that was laid out: the text, where laying it out
/// gave one.
pub fn laid_out(pretty: Result<String, serde_json::Error>) -> (r: Option<String>)
    ensures
        match pretty {
            Ok(text) => r == Some(text),
            Err(_) => r is None,
        },
{
    match pretty {
        Ok(text) => Some(text),
        Err(_) => None,
    }
}

/// The text of a log, laid out for reading: the layout of the JSON value
/// that the text holds. There is none exactly where the text holds no JSON
/// value.
pub fn read_most_recent_log_pretty(raw: &str) -> (r: Option<String>)
    ensures
        match r {
            Some(text) => json_layout(raw@) == Some(text@),
            None => json_layout(raw@) is None,
        },
{
    match parse_json(raw) {
        Ok(value) => laid_out(pretty_json(&value)),
        Err(_) => None,
    }
}

/// What is shown for the most recent log: its text, or a notice that there
/// is none.
pub fn read_latest_log(latest: Option<String>) -> (r: String)
    ensures
        r@ == status_text(
            match latest {
                Some(text) => Some(text@),
                None => None,
            },
        ),
{
    match latest {
        Some(text) => text,
        None => "[Error] No logs found.".to_owned(),
    }
}

/// What is shown for the most recent log: its text, or a notice that there
/// is none.
pub open spec fn status_text(latest: Option<Seq<char>>) -> Seq<char> {
    match latest {
        Some(text) => text,
        None => "[Error] No logs found."@,
    }
}

/// What a JSON value holds, as text: the text that
/// `serde_json::to_string_pretty` lays it out as.
pub uninterp spec fn layout(value: serde_json::Value) -> Seq<char>;

/// The layout of the JSON value that `serde_json::from_str` reads from
/// `raw`; none where it reads no value from it.
pub uninterp spec fn json_layout(raw: Seq<char>) -> Option<Seq<char>>;

} // verus!
