//! Regular expressions, as the `regex` crate reads and applies them.
//!
//! What a pattern matches is a matter of that crate alone. The library names
//! the results and says of them only that they depend on nothing but the
//! pattern and the texts.

use vstd::prelude::*;

verus! {

/// `text` with every match of `pattern` replaced by `rep`, as the `regex`
/// crate does it; `None` where it does not accept `pattern`.
pub uninterp spec fn regex_replaced(pattern: Seq<char>, text: Seq<char>, rep: Seq<char>) -> Option<
    Seq<char>,
>;

/// What the first group of `pattern` holds in the first match of `pattern`
/// in `text`, as the `regex` crate finds it: `Some(None)` where nothing
/// matches or the group takes no part in the match, `None` where the crate
/// does not accept `pattern`.
pub uninterp spec fn regex_first_group(pattern: Seq<char>, text: Seq<char>) -> Option<
    Option<Seq<char>>,
>;

/// `regex::Regex::replace_all`, on the pattern that `regex::Regex::new`
/// reads from `pattern`. The result depends on the three texts alone.
#[verifier::external_body]
pub(crate) fn replace_all(pattern: &str, text: &str, rep: &str) -> (r: Option<String>)
    ensures
        match r {
            Some(s) => regex_replaced(pattern@, text@, rep@) == Some(s@),
            None => regex_replaced(pattern@, text@, rep@) is None,
        },
{
    regex::Regex::new(pattern).ok().map(|re| re.replace_all(text, rep).into_owned())
}

/// `regex::Regex::captures`, on the pattern that `regex::Regex::new` reads
/// from `pattern`, and of the captures the first group, through
/// `regex::Captures::get`. The result depends on the two texts alone.
#[verifier::external_body]
pub(crate) fn first_group(pattern: &str, text: &str) -> (r: Option<Option<String>>)
    ensures
        match r {
            Some(Some(s)) => regex_first_group(pattern@, text@) == Some(Some(s@)),
            Some(None) => regex_first_group(pattern@, text@) == Some(None::<Seq<char>>),
            None => regex_first_group(pattern@, text@) is None,
        },
{
    regex::Regex::new(pattern).ok().map(
        |re| re.captures(text).and_then(|c| c.get(1)).map(|m| m.as_str().to_string()),
    )
}

} // verus!
