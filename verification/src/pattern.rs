//! Searching a text for a pattern. The pattern language is that of the
//! `regex` crate, which does the searching.

use vstd::prelude::*;

verus! {

/// The error type of the `regex` crate, carried through as an opaque value.
#[verifier::external_type_specification]
#[verifier::external_body]
pub struct ExRegexError(regex::Error);

/// What the first group of the pattern captures in the leftmost match of
/// the pattern in the text: `Ok(None)` where the pattern does not match or
/// the group takes no part in the match, `Err` where the pattern is refused.
pub uninterp spec fn first_group(pattern: Seq<char>, text: Seq<char>) -> Result<
    Option<Seq<char>>,
    (),
>;

/// Compiles the pattern with `regex::Regex::new`, searches the text with
/// `Regex::captures` and takes the text of group 1 with `Captures::get`.
/// Not proved: that the outcome is `first_group` of pattern and text, which
/// only says that equal patterns find the same in equal texts.
#[verifier::external_body]
pub(crate) fn capture_first_group(pattern: &str, text: &str) -> (r: Result<
    Option<String>,
    regex::Error,
>)
    ensures
        match r {
            Ok(Some(found)) => first_group(pattern@, text@) == Ok::<Option<Seq<char>>, ()>(
                Some(found@),
            ),
            Ok(None) => first_group(pattern@, text@) == Ok::<Option<Seq<char>>, ()>(None),
            Err(_) => first_group(pattern@, text@) is Err,
        },
{
    let re = regex::Regex::new(pattern)?;
    Ok(re.captures(text).and_then(|caps| caps.get(1)).map(|m| m.as_str().to_string()))
}

} // verus!
