//! Trace references and justifications written in comments, and other
//! pattern matches on text.
use vstd::prelude::*;
use vstd::string::*;

verus! {

pub open spec fn opt_text(o: Option<String>) -> Option<Seq<char>> {
    match o {
        Some(s) => Some(s@),
        None => None,
    }
}

/// What the named capture group `group` of the leftmost match of the regular
/// expression `pattern` holds in `text`.
pub uninterp spec fn regex_capture(pattern: Seq<char>, group: Seq<char>, text: Seq<char>) -> Option<
    Seq<char>,
>;

/// Relies on regex's `Regex::new` and `Regex::captures`: the text of the
/// named group in the leftmost match of `pattern` in `text`, or `None` where
/// the pattern does not compile, nothing matches or the group took no part.
#[verifier::external_body]
fn capture_named(pattern: &str, group: &str, text: &str) -> (r: Option<String>)
    ensures
        opt_text(r) == regex_capture(pattern@, group@, text@),
{
    let re = regex::Regex::new(pattern).ok()?;
    re.captures(text)?.name(group).map(|m| m.as_str().to_string())
}

/// The pattern of a trace reference in a comment.
pub open spec fn trace_pattern() -> Seq<char> {
    "lobster-trace: (?<ref>[[:alnum:]\\._-]+)"@
}

/// The pattern of a justification in a comment.
pub open spec fn just_pattern() -> Seq<char> {
    "lobster-exclude: (?<just>[[:alnum:]\\._-]+)"@
}

/// The pattern that picks the stem of a `.rs` file out of a path.
pub open spec fn file_pattern() -> Seq<char> {
    "(?:.*[/\\\\])?(?<file>[[:alnum:]]+)\\.rs"@
}

/// The requirement that a comment refers to: `req ` followed by the
/// identifier after the trace marker.
pub open spec fn trace_ref_of(comment: Seq<char>) -> Option<Seq<char>> {
    match regex_capture(trace_pattern(), "ref"@, comment) {
        Some(id) => Some("req "@ + id),
        None => None,
    }
}

/// The justification that a comment gives: the identifier after the
/// exclusion marker.
pub open spec fn justification_of(comment: Seq<char>) -> Option<Seq<char>> {
    regex_capture(just_pattern(), "just"@, comment)
}

/// The reference a comment makes to a requirement, if any.
pub fn trace_reference(comment: &str) -> (r: Option<String>)
    ensures
        opt_text(r) == trace_ref_of(comment@),
{
    let found = capture_named("lobster-trace: (?<ref>[[:alnum:]\\._-]+)", "ref", comment);
    prefixed_reference(found)
}

/// A captured identifier as a requirement reference: `req ` before it.
pub fn prefixed_reference(found: Option<String>) -> (r: Option<String>)
    ensures
        opt_text(r) == match opt_text(found) {
            Some(id) => Some("req "@ + id),
            None => None,
        },
{
    match found {
        Some(id) => {
            let mut out = String::from_str("req ");
            out.append(id.as_str());
            Some(out)
        },
        None => None,
    }
}

/// The justification a comment gives, if any.
pub fn justification(comment: &str) -> (r: Option<String>)
    ensures
        opt_text(r) == justification_of(comment@),
{
    capture_named("lobster-exclude: (?<just>[[:alnum:]\\._-]+)", "just", comment)
}

/// The stem of the `.rs` file that a path names, if it names one.
pub fn trim_filename(filepath: &str) -> (r: Option<String>)
    ensures
        opt_text(r) == regex_capture(file_pattern(), "file"@, filepath@),
{
    capture_named("(?:.*[/\\\\])?(?<file>[[:alnum:]]+)\\.rs", "file", filepath)
}

} // verus!
