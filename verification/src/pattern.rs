//! Regular expressions, as the `regex` crate understands them.

use vstd::prelude::*;

verus! {

/// `regex::Regex`, a compiled regular expression. It is carried as it is;
/// nothing is claimed of what it holds.
#[verifier::external_type_specification]
#[verifier::external_body]
pub struct ExRegex(regex::Regex);

/// Whether `pattern` is a regular expression that `regex::Regex::new` accepts.
pub uninterp spec fn regex_accepts(pattern: Seq<char>) -> bool;

/// Whether the regular expression `pattern` matches somewhere in `text`, as
/// `regex::Regex::is_match` finds it.
pub uninterp spec fn regex_matches(pattern: Seq<char>, text: Seq<char>) -> bool;

/// A compiled regular expression together with the text it was compiled from.
pub struct Pattern {
    source: String,
    compiled: regex::Regex,
}

impl Pattern {
    /// The text that this pattern was compiled from.
    pub closed spec fn source(&self) -> Seq<char> {
        self.source@
    }

    /// Calls `regex::Regex::new`. Whether a text is accepted as a regular
    /// expression depends on the text alone, and so does what the compiled
    /// expression matches; the pattern that comes back remembers the text.
    #[verifier::external_body]
    pub(crate) fn compile(source: &str) -> (r: Option<Pattern>)
        ensures
            r is Some <==> regex_accepts(source@),
            r matches Some(pattern) ==> pattern.source() == source@,
    {
        match regex::Regex::new(source) {
            Ok(compiled) => Some(Pattern { source: source.to_string(), compiled }),
            Err(_) => None,
        }
    }

    /// Calls `regex::Regex::is_match`: whether the expression matches
    /// anywhere in `text`.
    #[verifier::external_body]
    pub(crate) fn is_match(&self, text: &str) -> (b: bool)
        ensures
            b == regex_matches(self.source(), text@),
    {
        self.compiled.is_match(text)
    }
}

} // verus!
