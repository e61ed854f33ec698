//! Regular expression matching through the `regex` crate.

use vstd::prelude::*;

verus! {

/// The text of capture group 1 of the leftmost-first match of the regular
/// expression `pattern` (regex crate syntax) in `haystack`; `None` when the
/// pattern does not compile, does not match, or group 1 takes no part in
/// the match.
pub uninterp spec fn regex_capture(pattern: Seq<char>, haystack: Seq<char>) -> Option<Seq<char>>;

/// Compiles `pattern` with `regex::Regex::new` and reads capture group 1 of
/// `Regex::captures` on the haystack. The contract names the result
/// `regex_capture` of the pattern and the haystack; what the regex engine
/// matches is not restated here.
#[verifier::external_body]
pub(crate) fn capture_group_one(pattern: &str, haystack: &[char]) -> (r: Option<Vec<char>>)
    ensures
        match r {
            Some(v) => regex_capture(pattern@, haystack@) == Some(v@),
            None => regex_capture(pattern@, haystack@) is None,
        },
{
    let hay: String = haystack.iter().collect();
    regex::Regex::new(pattern).ok().and_then(
        |re| re.captures(&hay).and_then(|caps| caps.get(1).map(|m| m.as_str().chars().collect())),
    )
}

} // verus!
