//! Regular expressions, compiled and run by the `regex` crate.
use vstd::prelude::*;

verus! {

#[verifier::external_type_specification]
#[verifier::external_body]
pub struct ExRegex(regex::Regex);

/// Whether `regex::Regex::new` accepts `pattern`.
pub uninterp spec fn regex_compiles(pattern: Seq<char>) -> bool;

/// What `regex::Regex::is_match` answers for the regex compiled from `pattern`: whether it
/// matches somewhere in `haystack`.
pub uninterp spec fn regex_is_match(pattern: Seq<char>, haystack: Seq<char>) -> bool;

/// What `regex::Regex::captures` gives for the regex compiled from `pattern`: `None` when it
/// does not match `haystack`, otherwise the text of each capture group of the leftmost-first
/// match, group 0 first, `None` for a group that took no part in the match.
pub uninterp spec fn regex_captures(pattern: Seq<char>, haystack: Seq<char>) -> Option<
    Seq<Option<Seq<char>>>,
>;

/// What `regex::Regex::replace` gives for the regex compiled from `pattern`: `haystack` with
/// its leftmost-first match, if any, replaced by the expansion of `rep`, in which `$` refers
/// to a capture group.
pub uninterp spec fn regex_replace(pattern: Seq<char>, haystack: Seq<char>, rep: Seq<char>) -> Seq<char>;

/// A regular expression together with the source it was compiled from.
pub struct Pattern {
    source: String,
    compiled: regex::Regex,
}

impl View for Pattern {
    type V = Seq<char>;

    /// The source of the regular expression.
    closed spec fn view(&self) -> Seq<char> {
        self.source@
    }
}

/// The views of the texts of capture groups.
pub open spec fn group_texts(groups: Seq<Option<String>>) -> Seq<Option<Seq<char>>> {
    groups.map_values(|g: Option<String>| match g {
        Some(t) => Some(t@),
        None => None,
    })
}

/// Compiles `source` with `regex::Regex::new`; `None` where the crate refuses the pattern.
/// The contract claims that the answer depends on the source alone and that a compiled
/// pattern keeps its source.
#[verifier::external_body]
pub(crate) fn compile(source: &str) -> (p: Option<Pattern>)
    ensures
        p is Some <==> regex_compiles(source@),
        p matches Some(p) ==> p@ == source@,
{
    match regex::Regex::new(source) {
        Ok(compiled) => Some(Pattern { source: source.to_string(), compiled }),
        Err(_) => None,
    }
}

/// Calls `regex::Regex::is_match`; the contract claims that the answer is a function of the
/// pattern's source and the haystack alone.
#[verifier::external_body]
pub(crate) fn is_match(p: &Pattern, haystack: &str) -> (found: bool)
    ensures
        found == regex_is_match(p@, haystack@),
{
    p.compiled.is_match(haystack)
}

/// Calls `regex::Regex::captures` and copies out the text of every group; the contract claims
/// that the result is a function of the pattern's source and the haystack alone.
#[verifier::external_body]
pub(crate) fn captures(p: &Pattern, haystack: &str) -> (groups: Option<Vec<Option<String>>>)
    ensures
        match groups {
            Some(g) => regex_captures(p@, haystack@) == Some(group_texts(g@)),
            None => regex_captures(p@, haystack@) is None,
        },
{
    match p.compiled.captures(haystack) {
        Some(c) => {
            let mut groups = Vec::new();
            for m in c.iter() {
                groups.push(match m {
                    Some(m) => Some(m.as_str().to_string()),
                    None => None,
                });
            }
            Some(groups)
        },
        None => None,
    }
}

/// Calls `regex::Regex::replace` with the replacement text `rep`; the contract claims that the
/// result is a function of the pattern's source, the haystack and the replacement alone.
#[verifier::external_body]
pub(crate) fn replace(p: &Pattern, haystack: &str, rep: &str) -> (r: String)
    ensures
        r@ == regex_replace(p@, haystack@, rep@),
{
    p.compiled.replace(haystack, rep).to_string()
}

} // verus!
