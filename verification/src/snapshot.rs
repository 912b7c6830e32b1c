//! File snapshots: where a snapshot lives, and what comparing a value with
//! the stored one decides.
//!
//! Reading and writing the snapshot file is left to the caller; this module
//! names the file and turns what was read into the outcome.

use vstd::prelude::*;

use crate::equality::Equate;
use crate::text::{chars_of, push_all, push_str, string_of};

verus! {

/// Whether `c` may stay in a snapshot file name: ASCII letters and digits,
/// `_` and `-`.
pub open spec fn keeps(c: char) -> bool {
    ('a' <= c <= 'z') || ('A' <= c <= 'Z') || ('0' <= c <= '9') || c == '_' || c == '-'
}

/// `raw` with every character that may not stay in a file name replaced by
/// `_`; in particular each `::` of a module path becomes `__`.
pub open spec fn sanitized(raw: Seq<char>) -> Seq<char> {
    raw.map_values(|c: char| if keeps(c) { c } else { '_' })
}

/// Sanitizing keeps the length and, position by position, keeps every ASCII
/// letter (either case), digit, `_` and `-`, and turns any other character
/// into `_`; so a name made only of those characters is its own sanitized
/// form, and sanitizing twice changes nothing more.
pub proof fn lemma_sanitized_positions(raw: Seq<char>)
    ensures
        sanitized(raw).len() == raw.len(),
        forall|i: int|
            0 <= i < raw.len() ==> #[trigger] sanitized(raw)[i] == if ('a' <= raw[i] <= 'z') || ('A'
                <= raw[i] <= 'Z') || ('0' <= raw[i] <= '9') || raw[i] == '_' || raw[i] == '-' {
                raw[i]
            } else {
                '_'
            },
        (forall|i: int|
            0 <= i < raw.len() ==> ('a' <= #[trigger] raw[i] <= 'z') || ('A' <= raw[i] <= 'Z') || ('0'
                <= raw[i] <= '9') || raw[i] == '_' || raw[i] == '-') ==> sanitized(raw) == raw,
        sanitized(sanitized(raw)) == sanitized(raw),
{
    if forall|i: int|
        0 <= i < raw.len() ==> ('a' <= #[trigger] raw[i] <= 'z') || ('A' <= raw[i] <= 'Z') || ('0' <= raw[i]
            <= '9') || raw[i] == '_' || raw[i] == '-' {
        assert(sanitized(raw) =~= raw);
    }
    assert(sanitized(sanitized(raw)) =~= sanitized(raw));
}

/// A module path or snapshot name made safe for a file name.
pub fn sanitize(raw: &str) -> (out: String)
    ensures
        out@ == sanitized(raw@),
{
    let chars = chars_of(raw);
    let mut out: Vec<char> = Vec::new();
    let mut i: usize = 0;
    while i < chars.len()
        invariant
            i <= chars@.len(),
            out@ == sanitized(chars@.take(i as int)),
        decreases chars.len() - i,
    {
        let c = chars[i];
        let kept = ('a' <= c && c <= 'z') || ('A' <= c && c <= 'Z') || ('0' <= c && c <= '9') || c
            == '_' || c == '-';
        out.push(if kept { c } else { '_' });
        assert(out@ =~= sanitized(chars@.take(i + 1)));
        i = i + 1;
    }
    assert(chars@.take(chars@.len() as int) =~= chars@);
    string_of(&out)
}

/// `dir` and `file` joined by a `/`, unless `dir` is empty or already ends
/// with one; `file` is relative.
pub open spec fn joined(dir: Seq<char>, file: Seq<char>) -> Seq<char> {
    if dir.len() == 0 {
        file
    } else if dir.last() == '/' {
        dir + file
    } else {
        dir + "/"@ + file
    }
}

/// The file a snapshot is stored in: `<module>__<name>.snap` in `dir`, both
/// parts sanitized.
pub open spec fn snapshot_location(dir: Seq<char>, module: Seq<char>, name: Seq<char>) -> Seq<
    char,
> {
    joined(dir, sanitized(module) + "__"@ + sanitized(name) + ".snap"@)
}

/// The path of the snapshot `name` of the module `module` under `dir`.
pub fn snapshot_path(dir: &str, module: &str, name: &str) -> (path: String)
    ensures
        path@ == snapshot_location(dir@, module@, name@),
{
    let mut file = chars_of(sanitize(module).as_str());
    push_str(&mut file, "__");
    push_str(&mut file, sanitize(name).as_str());
    push_str(&mut file, ".snap");
    let mut out = chars_of(dir);
    if out.len() > 0 && out[out.len() - 1] != '/' {
        out.push('/');
    }
    push_all(&mut out, &file);
    proof {
        reveal_strlit("__");
        reveal_strlit(".snap");
        reveal_strlit("/");
    }
    assert(out@ =~= snapshot_location(dir@, module@, name@));
    string_of(&out)
}

/// What reading a snapshot file gave.
#[derive(Debug)]
pub enum Stored {
    /// The file's text.
    Text(String),
    /// There is no such file.
    NotFound,
    /// Reading failed otherwise; the error's message.
    Failed(String),
}

/// Why a snapshot check failed.
#[derive(Debug)]
pub enum SnapshotFailure {
    /// No snapshot is stored at `path`.
    Missing { path: String },
    /// The stored snapshot differs from the value.
    Mismatch { path: String, expected: String, actual: String },
    /// Reading or writing the snapshot failed.
    Io { path: String, action: String, source: String },
}

/// Compares a value with what reading its snapshot file at `path` gave:
/// equal text passes; different text is a mismatch carrying both; a missing
/// file is `Missing`; another read error is an I/O failure while reading.
pub fn compare_snapshot(path: &str, stored: Stored, actual: &str) -> (r: Result<(), SnapshotFailure>)
    ensures
        match stored {
            Stored::Text(expected) => if expected@ == actual@ {
                r is Ok
            } else {
                r matches Err(SnapshotFailure::Mismatch { path: p, expected: e, actual: a }) && p@
                    == path@ && e@ == expected@ && a@ == actual@
            },
            Stored::NotFound => r matches Err(SnapshotFailure::Missing { path: p }) && p@ == path@,
            Stored::Failed(message) => r matches Err(SnapshotFailure::Io { path: p, action, source })
                && p@ == path@ && action@ == "reading the snapshot file"@ && source@ == message@,
        },
{
    match stored {
        Stored::Text(expected) => {
            if expected.as_str().equals(actual) {
                Ok(())
            } else {
                Err(
                    SnapshotFailure::Mismatch {
                        path: String::from_str(path),
                        expected,
                        actual: String::from_str(actual),
                    },
                )
            }
        },
        Stored::NotFound => Err(SnapshotFailure::Missing { path: String::from_str(path) }),
        Stored::Failed(message) => Err(
            SnapshotFailure::Io {
                path: String::from_str(path),
                action: String::from_str("reading the snapshot file"),
                source: message,
            },
        ),
    }
}

/// The message a snapshot failure reads as.
pub open spec fn failure_text(f: SnapshotFailure) -> Seq<char> {
    match f {
        SnapshotFailure::Missing { path } => "no snapshot at "@ + path@
            + "; rerun with UPDATE_SNAPSHOTS=1 to create it"@,
        SnapshotFailure::Mismatch { path, .. } => "snapshot at "@ + path@ + " does not match"@,
        SnapshotFailure::Io { path, action, source } => "I/O error "@ + action@ + " ("@ + path@
            + "): "@ + source@,
    }
}

impl SnapshotFailure {
    /// The message this failure reads as.
    pub fn to_string(&self) -> (s: String)
        ensures
            s@ == failure_text(*self),
    {
        let mut out: Vec<char> = Vec::new();
        match self {
            SnapshotFailure::Missing { path } => {
                push_str(&mut out, "no snapshot at ");
                push_str(&mut out, path.as_str());
                push_str(&mut out, "; rerun with UPDATE_SNAPSHOTS=1 to create it");
            },
            SnapshotFailure::Mismatch { path, .. } => {
                push_str(&mut out, "snapshot at ");
                push_str(&mut out, path.as_str());
                push_str(&mut out, " does not match");
            },
            SnapshotFailure::Io { path, action, source } => {
                push_str(&mut out, "I/O error ");
                push_str(&mut out, action.as_str());
                push_str(&mut out, " (");
                push_str(&mut out, path.as_str());
                push_str(&mut out, "): ");
                push_str(&mut out, source.as_str());
            },
        }
        assert(out@ =~= failure_text(*self));
        string_of(&out)
    }
}

} // verus!
