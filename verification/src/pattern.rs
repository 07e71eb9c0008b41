//! Regular-expression searches, done by the `regex` crate.
//!
//! What a search returns is named here in general (`regex_first_captures`,
//! `regex_group1_all`); for the patterns this library uses, the match is
//! also spelled out from what the crate's documentation states.
use vstd::prelude::*;
use crate::launch_options::{launch_entry_captures, LAUNCH_OPTIONS_PATTERN};
use crate::quoted_field::{field_captures, field_values};
use crate::scanner::{
    ACF_APPID_PATTERN, ACF_INSTALLDIR_PATTERN, ACF_NAME_PATTERN, LIBRARY_PATH_PATTERN,
};

verus! {

/// The leftmost-first match of `pattern` in `text`, as
/// `(text before the match, the match, capture group 1, text after the match)`;
/// capture group 1 is empty when the group took no part in the match.
/// `None` when nothing matches or `pattern` is not a valid regex.
pub uninterp spec fn regex_first_captures(pattern: Seq<char>, text: Seq<char>) -> Option<
    (Seq<char>, Seq<char>, Seq<char>, Seq<char>),
>;

/// Capture group 1 of every successive non-overlapping match of `pattern` in
/// `text` (empty when `pattern` is invalid).
pub uninterp spec fn regex_group1_all(pattern: Seq<char>, text: Seq<char>) -> Seq<Seq<char>>;

/// A search result `r` is the first match `c`, taken by view.
pub open spec fn captures_agree(
    r: Option<(String, String, String, String)>,
    c: Option<(Seq<char>, Seq<char>, Seq<char>, Seq<char>)>,
) -> bool {
    match r {
        Some((a, m, g, z)) => c == Some((a@, m@, g@, z@)),
        None => c is None,
    }
}

/// Compiles `pattern` with `regex::Regex::new` and runs `Regex::captures` on
/// `text`. Claimed: the result is the named first match; when there is one,
/// the text before it, the match and the text after it make up `text` (the
/// match is a span of the haystack). For the patterns this library uses the
/// match is also spelled out (`launch_entry_captures`, `field_captures`),
/// from what the crate documents: leftmost-first matching, greedy
/// repetition, `\s` as Unicode `White_Space`, `.` as any character but a line
/// break, and a negated class as any other character. Not claimed: the match
/// for other patterns.
#[verifier::external_body]
pub(crate) fn regex_captures(pattern: &str, text: &str) -> (r: Option<(String, String, String, String)>)
    ensures
        r is None <==> regex_first_captures(pattern@, text@) is None,
        r matches Some((a, m, g, z)) ==> regex_first_captures(pattern@, text@) == Some(
            (a@, m@, g@, z@),
        ),
        r matches Some((a, m, g, z)) ==> text@ == a@ + m@ + z@,
        pattern@ == LAUNCH_OPTIONS_PATTERN@ ==> captures_agree(r, launch_entry_captures(text@)),
        pattern@ == ACF_APPID_PATTERN@ ==> captures_agree(r, field_captures(text@, "appid"@)),
        pattern@ == ACF_NAME_PATTERN@ ==> captures_agree(r, field_captures(text@, "name"@)),
        pattern@ == ACF_INSTALLDIR_PATTERN@ ==> captures_agree(
            r,
            field_captures(text@, "installdir"@),
        ),
{
    let re = regex::Regex::new(pattern).ok()?;
    let caps = re.captures(text)?;
    let m = caps.get(0)?;
    let g = caps.get(1).map_or("", |g| g.as_str());
    Some((
        text[..m.start()].to_string(),
        m.as_str().to_string(),
        g.to_string(),
        text[m.end()..].to_string(),
    ))
}

/// Compiles `pattern` with `regex::Regex::new` and collects capture group 1
/// of every match that `Regex::captures_iter` yields on `text`. Claimed: the
/// result is the named list; for [`LIBRARY_PATH_PATTERN`] it is the list of
/// `"path"` field values that `field_values` spells out (matches follow one
/// another without overlap, each search resuming where the last match
/// ended). Not claimed: the matches for other patterns.
#[verifier::external_body]
pub(crate) fn regex_captures_all(pattern: &str, text: &str) -> (r: Vec<String>)
    ensures
        r@.len() == regex_group1_all(pattern@, text@).len(),
        forall|i: int| 0 <= i < r@.len() ==> #[trigger] r@[i]@ == regex_group1_all(pattern@, text@)[i],
        pattern@ == LIBRARY_PATH_PATTERN@ ==> r@.len() == field_values(text@, "path"@).len() && (
        forall|i: int| 0 <= i < r@.len() ==> #[trigger] r@[i]@ == field_values(text@, "path"@)[i]),
{
    match regex::Regex::new(pattern) {
        Ok(re) => re.captures_iter(text).map(|c| c.get(1).map_or("", |g| g.as_str()).to_string()).collect(),
        Err(_) => Vec::new(),
    }
}

} // verus!
