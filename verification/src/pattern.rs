//! Regular expressions, compiled and searched by the `regex` crate.

use vstd::prelude::*;

verus! {

/// `regex::Regex`, carried through as an opaque value.
#[verifier::external_type_specification]
#[verifier::external_body]
pub struct ExRegex(regex::Regex);

/// `regex::Error`, the reason a pattern does not compile.
#[verifier::external_type_specification]
#[verifier::external_body]
pub struct ExRegexError(regex::Error);

/// Whether `regex::Regex::new` accepts the pattern (its syntax is valid and
/// the compiled program stays under the crate's default size limit).
pub uninterp spec fn regex_compiles(pattern: Seq<char>) -> bool;

/// Whether the compiled pattern matches somewhere in the haystack, as
/// `regex::Regex::is_match` answers.
pub uninterp spec fn regex_is_match(pattern: Seq<char>, haystack: Seq<char>) -> bool;

/// A compiled regular expression together with the pattern it was compiled from.
pub struct CompiledRegex {
    regex: regex::Regex,
    pattern: Ghost<Seq<char>>,
}

impl View for CompiledRegex {
    type V = Seq<char>;

    closed spec fn view(&self) -> Seq<char> {
        self.pattern@
    }
}

/// Calls `regex::Regex::new`. Claimed: it succeeds exactly on the patterns
/// of `regex_compiles`, and the value it gives back is that pattern compiled.
/// The error value is handed on as it is, with nothing said of it.
#[verifier::external_body]
pub(crate) fn compile_regex(pattern: &str) -> (r: Result<CompiledRegex, regex::Error>)
    ensures
        r is Ok <==> regex_compiles(pattern@),
        r matches Ok(c) ==> c@ == pattern@,
{
    match regex::Regex::new(pattern) {
        Ok(regex) => Ok(CompiledRegex { regex, pattern: Ghost(pattern@) }),
        Err(e) => Err(e),
    }
}

/// Calls `regex::Regex::is_match`. Claimed: the answer depends on the
/// pattern and the haystack alone, and is named `regex_is_match`.
#[verifier::external_body]
pub(crate) fn regex_matches(re: &CompiledRegex, haystack: &str) -> (r: bool)
    ensures
        r == regex_is_match(re@, haystack@),
{
    re.regex.is_match(haystack)
}

} // verus!
