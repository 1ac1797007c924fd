//! Regular-expression rewriting, delegated to the `regex` crate.
use vstd::prelude::*;

verus! {

/// Whether `regex` compiles `pattern`.
pub uninterp spec fn regex_accepts(pattern: Seq<char>) -> bool;

/// `text` after every non-overlapping match of `pattern`, taken from the
/// left, has been replaced by the expansion of `rep`.
pub uninterp spec fn regex_replaced(pattern: Seq<char>, text: Seq<char>, rep: Seq<char>) -> Seq<char>;

/// Replaces every match of `pattern` in `text` by `rep`.
///
/// Trusted: compiles the pattern with `regex::Regex::new` and rewrites the
/// text with `Regex::replace_all`. Both depend on their arguments alone, so
/// the contract only gives their outcomes a name: the call gives `None`
/// exactly when the pattern does not compile, and otherwise the rewritten
/// text.
#[verifier::external_body]
pub(crate) fn replace_all(pattern: &str, text: &str, rep: &str) -> (r: Option<String>)
    ensures
        r is Some <==> regex_accepts(pattern@),
        r matches Some(out) ==> out@ == regex_replaced(pattern@, text@, rep@),
{
    let re = regex::Regex::new(pattern).ok()?;
    Some(re.replace_all(text, rep).into_owned())
}

} // verus!
