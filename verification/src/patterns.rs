//! Regular expressions.
use vstd::prelude::*;

verus! {

/// The characters that mean something in a pattern.
pub open spec fn is_meta(c: char) -> bool {
    c == '\\' || c == '.' || c == '+' || c == '*' || c == '?' || c == '(' || c == ')' || c == '|' || c
        == '[' || c == ']' || c == '{' || c == '}' || c == '^' || c == '$' || c == '#' || c == '&' || c
        == '-' || c == '~'
}

/// `s` with a backslash before each character that means something in a pattern.
pub open spec fn escaped(s: Seq<char>) -> Seq<char>
    decreases s.len(),
{
    if s.len() == 0 {
        Seq::empty()
    } else if is_meta(s.last()) {
        escaped(s.drop_last()).push('\\').push(s.last())
    } else {
        escaped(s.drop_last()).push(s.last())
    }
}

/// `regex::escape`: puts a backslash before each of the characters that mean
/// something in a pattern and changes nothing else.
#[verifier::external_body]
pub(crate) fn escape_pattern(text: &str) -> (r: String)
    ensures
        r@ == escaped(text@),
{
    regex::escape(text)
}

/// Whether a pattern matches anywhere in a text; none where it is no pattern.
pub uninterp spec fn pattern_match(pattern: Seq<char>, text: Seq<char>) -> Option<bool>;

/// `regex::Regex::new` and `regex::Regex::is_match`: whether the pattern matches
/// anywhere in the text, none where the pattern cannot be compiled. Which texts a
/// pattern matches is not stated beyond that it depends on the two alone.
#[verifier::external_body]
pub(crate) fn matches_pattern(pattern: &str, text: &str) -> (r: Option<bool>)
    ensures
        r == pattern_match(pattern@, text@),
{
    regex::Regex::new(pattern).ok().map(|re| re.is_match(text))
}

/// Whether a pattern matches; one that is no pattern does not.
pub open spec fn found(m: Option<bool>) -> bool {
    m == Some(true)
}

/// Whether a pattern matches, given what trying it came to.
pub fn is_found(m: Option<bool>) -> (r: bool)
    ensures
        r == found(m),
{
    match m {
        Some(b) => b,
        None => false,
    }
}

/// A pattern is found exactly where it could be tried and matched.
pub proof fn law_when_a_pattern_is_found(m: Option<bool>)
    ensures
        found(m) <==> m is Some && m->0,
{
}

} // verus!
