//! A compiled regular expression that carries the pattern it was compiled from.
//!
//! The fields of [QueryRegex] are private to this module, and the only place that
//! builds one is [compile_regex], which compiles the very pattern that it stores; so
//! every `QueryRegex` matches as its pattern does.
use vstd::prelude::*;

verus! {

/// The `regex` crate's compiled regular expression.
#[verifier::external_type_specification]
#[verifier::external_body]
pub struct ExRegex(regex::Regex);

/// The `regex` crate's error for a pattern that does not compile.
#[verifier::external_type_specification]
#[verifier::external_body]
pub struct ExRegexError(regex::Error);

/// Whether `regex::Regex::new` accepts the pattern (it refuses a pattern that is not
/// valid syntax, or whose compiled form exceeds the crate's default size limits).
pub uninterp spec fn regex_compiles(pattern: Seq<char>) -> bool;

/// Whether the regular expression `pattern` matches somewhere in `haystack`, as
/// `regex::Regex::is_match` decides it.
pub uninterp spec fn regex_is_match(pattern: Seq<char>, haystack: Seq<char>) -> bool;

/// A compiled regular expression together with the pattern it was compiled from.
pub struct QueryRegex {
    pattern: String,
    compiled: regex::Regex,
}

impl View for QueryRegex {
    type V = Seq<char>;

    /// The pattern of the expression.
    open spec fn view(&self) -> Seq<char> {
        self.spec_pattern()
    }
}

impl QueryRegex {
    /// The pattern that the expression was compiled from.
    pub closed spec fn spec_pattern(&self) -> Seq<char> {
        self.pattern@
    }

    /// The pattern that the expression was compiled from.
    pub fn pattern(&self) -> (res: &str)
        ensures
            res@ == self@,
    {
        self.pattern.as_str()
    }

    /// Whether the expression matches somewhere in `haystack`.
    pub fn is_match(&self, haystack: &str) -> (res: bool)
        ensures
            res == regex_is_match(self@, haystack@),
    {
        regex_is_match_call(self, haystack)
    }
}

/// Calls `regex::Regex::new` on `pattern` and keeps the compiled expression together
/// with that same pattern: the result is `Ok` exactly when the pattern compiles, and
/// then its pattern is `pattern`.
#[verifier::external_body]
pub(crate) fn compile_regex(pattern: String) -> (res: Result<QueryRegex, regex::Error>)
    ensures
        res is Ok <==> regex_compiles(pattern@),
        res matches Ok(r) ==> r@ == pattern@,
{
    match regex::Regex::new(pattern.as_str()) {
        Ok(compiled) => Ok(QueryRegex { pattern, compiled }),
        Err(e) => Err(e),
    }
}

/// Calls `regex::Regex::is_match` on the compiled expression of `re`: the result is
/// the crate's decision for `re`'s pattern on `haystack`, since `compile_regex`, the
/// only builder of a `QueryRegex`, compiled its expression from that pattern.
#[verifier::external_body]
fn regex_is_match_call(re: &QueryRegex, haystack: &str) -> (res: bool)
    ensures
        res == regex_is_match(re@, haystack@),
{
    re.compiled.is_match(haystack)
}

} // verus!
