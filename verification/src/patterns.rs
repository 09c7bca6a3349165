//! Trusted bindings to the regular-expression and glob crates.
//!
//! What a pattern matches is a function of the pattern and the text alone,
//! so each result carries a name that the callers' contracts build on; the
//! bindings themselves are believed, not proved.

use vstd::prelude::*;

verus! {

/// Whether the regex crate accepts `pat` as a pattern.
pub uninterp spec fn regex_is_valid(pat: Seq<char>) -> bool;

/// The successive non-overlapping matches of `pat` in `text`, left to
/// right: for each, its byte offset and its matched bytes.
pub uninterp spec fn regex_found(pat: Seq<char>, text: Seq<u8>) -> Seq<(usize, Seq<u8>)>;

/// For each non-overlapping match of `pat` in `text`: its byte offset, its
/// matched bytes and the bytes of its first capture group.
pub uninterp spec fn regex_captured(pat: Seq<char>, text: Seq<u8>) -> Seq<
    (usize, Seq<u8>, Seq<u8>),
>;

/// Whether the glob crate accepts `pat` as a pattern.
pub uninterp spec fn glob_is_valid(pat: Seq<char>) -> bool;

/// Whether glob pattern `pat` matches the path `name`.
pub uninterp spec fn glob_matched(pat: Seq<char>, name: Seq<char>) -> bool;

/// What lossy UTF-8 decoding makes of a byte string.
pub uninterp spec fn lossy_decoded(b: Seq<u8>) -> Seq<char>;

/// Relies on regex::bytes::Regex::new and Regex::find_iter: compiling fails
/// exactly on patterns the crate rejects, and searching yields the
/// successive non-overlapping matches from left to right, each one a range
/// of the haystack at its reported offset.
#[verifier::external_body]
pub fn regex_find_all(pat: &str, text: &[u8]) -> (r: Result<Vec<(usize, Vec<u8>)>, String>)
    ensures
        r.is_ok() == regex_is_valid(pat@),
        r.is_ok() ==> {
            let found = regex_found(pat@, text@);
            let v = r.unwrap();
            &&& v@.len() == found.len()
            &&& forall|i: int|
                0 <= i < v@.len() ==> (#[trigger] v@[i]).0 == found[i].0 && v@[i].1@ == found[i].1
            &&& forall|i: int|
                0 <= i < v@.len() ==> (#[trigger] v@[i]).0 + v@[i].1@.len() <= text@.len()
                    && v@[i].1@ == text@.subrange(
                    v@[i].0 as int,
                    v@[i].0 + v@[i].1@.len(),
                )
            &&& forall|i: int|
                0 <= i < v@.len() - 1 ==> (#[trigger] v@[i]).0 < v@[i + 1].0
        },
{
    match regex::bytes::Regex::new(pat) {
        Ok(re) => Ok(re.find_iter(text).map(|m| (m.start(), m.as_bytes().to_vec())).collect()),
        Err(e) => Err(format!("{e}")),
    }
}

/// Relies on regex::bytes::Regex::new and Regex::captures_iter: as with the
/// search above, and group one of each match is carried along (empty where
/// the group took no part in the match).
#[verifier::external_body]
pub fn regex_capture_all(pat: &str, text: &[u8]) -> (r: Result<
    Vec<(usize, Vec<u8>, Vec<u8>)>,
    String,
>)
    ensures
        r.is_ok() == regex_is_valid(pat@),
        r.is_ok() ==> {
            let found = regex_captured(pat@, text@);
            let v = r.unwrap();
            &&& v@.len() == found.len()
            &&& forall|i: int|
                0 <= i < v@.len() ==> (#[trigger] v@[i]).0 == found[i].0 && v@[i].1@ == found[i].1
                    && v@[i].2@ == found[i].2
            &&& forall|i: int|
                0 <= i < v@.len() ==> (#[trigger] v@[i]).0 + v@[i].1@.len() <= text@.len()
        },
{
    match regex::bytes::Regex::new(pat) {
        Ok(re) => Ok(
            re.captures_iter(text).map(
                |c| {
                    let m = c.get(0).unwrap();
                    let g = c.get(1).map(|g| g.as_bytes().to_vec()).unwrap_or_default();
                    (m.start(), m.as_bytes().to_vec(), g)
                },
            ).collect(),
        ),
        Err(e) => Err(format!("{e}")),
    }
}

/// Relies on glob::Pattern::new and Pattern::matches: compiling fails
/// exactly on patterns the crate rejects, and matching is a function of
/// the pattern and the path alone.
#[verifier::external_body]
pub fn glob_match(pat: &str, name: &str) -> (r: Result<bool, String>)
    ensures
        r.is_ok() == glob_is_valid(pat@),
        r.is_ok() ==> r.unwrap() == glob_matched(pat@, name@),
{
    match glob::Pattern::new(pat) {
        Ok(p) => Ok(p.matches(name)),
        Err(e) => Err(format!("{e}")),
    }
}

/// Relies on String::from_utf8_lossy: the decoding depends on the bytes
/// alone, and an empty byte string decodes to an empty string.
#[verifier::external_body]
pub fn lossy_string(b: &[u8]) -> (r: String)
    ensures
        r@ == lossy_decoded(b@),
        b@.len() == 0 ==> r@.len() == 0,
{
    String::from_utf8_lossy(b).into_owned()
}

} // verus!
