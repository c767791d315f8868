//! The regular-expression engine, as far as the pipeline uses it.
//!
//! The engine is the `regex` crate. Nothing in this module is proved: each
//! item states what the crate is taken to do. What a pattern matches is not
//! spelled out here; it is given a name, and the rest of the library speaks of
//! that name.

use vstd::prelude::*;

verus! {

/// `regex::Error`: why the engine refused to compile a pattern.
#[verifier::external_type_specification]
#[verifier::external_body]
pub struct ExRegexError(regex::Error);

/// Whether `pattern` matches somewhere in `text`, as `regex::Regex::is_match`
/// finds for the regex that `regex::Regex::new` compiles from `pattern`; or
/// nothing, if the pattern does not compile.
pub uninterp spec fn pattern_match(pattern: Seq<char>, text: Seq<char>) -> Option<bool>;

/// What capture group `group` holds in the first match of `pattern` in `text`,
/// as `regex::Regex::captures` and `regex::Captures::get` find for the regex
/// that `regex::Regex::new` compiles from `pattern`. The outer value is
/// nothing if the pattern does not compile; the inner one is nothing if the
/// pattern matches nowhere or the group took no part in the match.
pub uninterp spec fn pattern_capture(pattern: Seq<char>, group: nat, text: Seq<char>) -> Option<
    Option<Seq<char>>,
>;

/// Compiles `pattern` with `regex::Regex::new` and asks `regex::Regex::is_match`
/// whether it matches somewhere in `text`. The contract claims only that the
/// answer is the one named `pattern_match`: the same for the same pattern and
/// text, and an error exactly when the pattern does not compile.
#[verifier::external_body]
pub(crate) fn regex_is_match(pattern: &str, text: &str) -> (found: Result<bool, regex::Error>)
    ensures
        found matches Ok(b) ==> pattern_match(pattern@, text@) == Some(b),
        found is Err ==> pattern_match(pattern@, text@) is None,
{
    match regex::Regex::new(pattern) {
        Ok(re) => Ok(re.is_match(text)),
        Err(e) => Err(e),
    }
}

/// Compiles `pattern` with `regex::Regex::new`, searches `text` with
/// `regex::Regex::captures` and takes the text of group `group` from
/// `regex::Captures::get`. The contract claims only that the answer is the one
/// named `pattern_capture`: the same for the same pattern, group and text, and
/// an error exactly when the pattern does not compile.
#[verifier::external_body]
pub(crate) fn regex_capture(pattern: &str, group: usize, text: &str) -> (found: Result<
    Option<String>,
    regex::Error,
>)
    ensures
        found matches Ok(Some(s)) ==> pattern_capture(pattern@, group as nat, text@) == Some(
            Some(s@),
        ),
        found matches Ok(None) ==> pattern_capture(pattern@, group as nat, text@) == Some(
            None::<Seq<char>>,
        ),
        found is Err ==> pattern_capture(pattern@, group as nat, text@) is None,
{
    let re = match regex::Regex::new(pattern) {
        Ok(re) => re,
        Err(e) => return Err(e),
    };
    match re.captures(text) {
        Some(groups) => match groups.get(group) {
            Some(m) => Ok(Some(m.as_str().to_string())),
            None => Ok(None),
        },
        None => Ok(None),
    }
}

} // verus!
