//! Finding the workspace root from what `cargo locate-project` prints.
use vstd::prelude::*;

use crate::error::{ErrorKind, MemberError};
use crate::path::{has_prefix, parent, parent_of, starts_with};

verus! {

/// The `root` string of the JSON object that `text` holds, if it holds one.
pub uninterp spec fn json_root(text: Seq<char>) -> Option<Seq<char>>;

/// Relies on `serde_json::from_str` (into a `serde_json::Value`),
/// `Value::get` and `Value::as_str`: the `root` field of the JSON object in
/// `text`, when `text` is JSON and the field is a string. The result depends
/// on `text` alone.
#[verifier::external_body]
fn root_field(text: &str) -> (r: Option<String>)
    ensures
        r matches Some(v) ==> json_root(text@) == Some(v@),
        r is None ==> json_root(text@) is None,
{
    match serde_json::from_str::<serde_json::Value>(text) {
        Ok(v) => v.get("root").and_then(|r| r.as_str()).map(|r| r.to_string()),
        Err(_) => None,
    }
}

/// The characters of Unicode's `White_Space` property.
pub open spec fn is_space(c: char) -> bool {
    c == ' ' || ('\t' <= c && c <= '\r') || c == '\u{85}' || c == '\u{a0}' || c == '\u{1680}'
        || ('\u{2000}' <= c && c <= '\u{200a}') || c == '\u{2028}' || c == '\u{2029}'
        || c == '\u{202f}' || c == '\u{205f}' || c == '\u{3000}'
}

fn space(c: char) -> (r: bool)
    ensures
        r == is_space(c),
{
    c == ' ' || ('\t' <= c && c <= '\r') || c == '\u{85}' || c == '\u{a0}' || c == '\u{1680}'
        || ('\u{2000}' <= c && c <= '\u{200a}') || c == '\u{2028}' || c == '\u{2029}'
        || c == '\u{202f}' || c == '\u{205f}' || c == '\u{3000}'
}

/// `s` without its trailing whitespace.
pub open spec fn trimmed_end(s: Seq<char>) -> Seq<char>
    decreases s.len(),
{
    if s.len() > 0 && is_space(s.last()) {
        trimmed_end(s.drop_last())
    } else {
        s
    }
}

pub open spec fn error_tag() -> Seq<char> {
    seq!['e', 'r', 'r', 'o', 'r', ':', ' ']
}

/// `s` without its leading `error: ` tags.
pub open spec fn untagged(s: Seq<char>) -> Seq<char>
    decreases s.len(),
{
    if s.len() >= 7 && has_prefix(s, error_tag()) {
        untagged(s.subrange(7, s.len() as int))
    } else {
        s
    }
}

/// The message of a failed cargo command, from what it wrote to stderr.
pub open spec fn message_of(stderr: Seq<char>) -> Seq<char> {
    untagged(trimmed_end(stderr))
}

/// Computes `message_of`.
pub fn error_message(stderr: &str) -> (r: String)
    ensures
        r@ == message_of(stderr@),
{
    let mut n = stderr.unicode_len();
    assert(stderr@.subrange(0, n as int) =~= stderr@);
    while n > 0 && space(stderr.get_char(n - 1))
        invariant
            n <= stderr@.len(),
            trimmed_end(stderr@.subrange(0, n as int)) == trimmed_end(stderr@),
        decreases n,
    {
        assert(stderr@.subrange(0, n as int).drop_last() =~= stderr@.subrange(0, n - 1));
        n = n - 1;
    }
    let mut s: &str = stderr.substring_char(0, n);
    assert(s@ == trimmed_end(stderr@));
    proof {
        reveal_strlit("error: ");
        assert("error: "@ =~= error_tag());
    }
    while s.unicode_len() >= 7 && starts_with(s, "error: ")
        invariant
            untagged(s@) == message_of(stderr@),
            "error: "@ == error_tag(),
        decreases s@.len(),
    {
        let len = s.unicode_len();
        s = s.substring_char(7, len);
    }
    String::from_str(s)
}

/// The workspace root directory, given what `cargo locate-project` printed
/// and the `root` field read from it (`None` where there was none).
pub fn root_from_located(stdout: &str, located: Option<String>) -> (r: Result<String, MemberError>)
    ensures
        located matches Some(m) ==> (r matches Ok(v) && v@ == parent_of(m@)),
        located is None ==> (r matches Err(e) && e@ == (ErrorKind::MalformedOutput, stdout@)),
{
    match located {
        Some(m) => Ok(parent(m.as_str())),
        None => Err(MemberError::about(ErrorKind::MalformedOutput, stdout)),
    }
}

/// The workspace root directory from the exit status and the output of
/// `cargo locate-project`: the directory of the manifest that it names, or
/// its message when it failed.
pub fn find_root_manifest(success: bool, stdout: &str, stderr: &str) -> (r: Result<
    String,
    MemberError,
>)
    ensures
        !success ==> (r matches Err(e) && e@ == (ErrorKind::Collaborator, message_of(stderr@))),
        success ==> match json_root(stdout@) {
            Some(m) => r matches Ok(v) && v@ == parent_of(m),
            None => r matches Err(e) && e@ == (ErrorKind::MalformedOutput, stdout@),
        },
{
    if !success {
        let msg = error_message(stderr);
        return Err(MemberError { kind: ErrorKind::Collaborator, subject: msg });
    }
    root_from_located(stdout, root_field(stdout))
}

} // verus!
