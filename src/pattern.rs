use vstd::prelude::*;

verus! {

#[verifier::external_type_specification]
#[verifier::external_body]
pub struct ExRegex(regex::Regex);

#[verifier::external_type_specification]
#[verifier::external_body]
pub struct ExRegexError(regex::Error);

/// Whether the regex engine accepts `pattern` with the given case setting.
pub uninterp spec fn pattern_compiles(pattern: Seq<char>, case_insensitive: bool) -> bool;

/// Whether the compiled pattern matches somewhere in `line`.
pub uninterp spec fn pattern_matches(pattern: Seq<char>, case_insensitive: bool, line: Seq<char>) -> bool;

/// The leftmost-first match of the compiled pattern in `line`, if any.
pub uninterp spec fn first_match(pattern: Seq<char>, case_insensitive: bool, line: Seq<char>) -> Option<Seq<char>>;

/// `part` occurs in `whole` as a contiguous run.
pub open spec fn is_substring(part: Seq<char>, whole: Seq<char>) -> bool {
    exists|i: int| 0 <= i && i + part.len() <= whole.len() && #[trigger] whole.subrange(i, i + part.len()) == part
}

/// A compiled pattern together with the source and case setting it was built from.
pub struct Matcher {
    re: regex::Regex,
    source: String,
    case_insensitive: bool,
}

impl Matcher {
    pub closed spec fn source(&self) -> Seq<char> {
        self.source@
    }

    pub closed spec fn case_insensitive(&self) -> bool {
        self.case_insensitive
    }
}

/// Relies on regex::RegexBuilder::new, case_insensitive and build: compilation
/// succeeds or fails depending on the pattern and the case setting alone.
#[verifier::external_body]
pub(crate) fn compile(pattern: &str, case_insensitive: bool) -> (r: Result<Matcher, regex::Error>)
    ensures
        r is Ok <==> pattern_compiles(pattern@, case_insensitive),
        r matches Ok(m) ==> m.source() == pattern@ && m.case_insensitive() == case_insensitive,
{
    regex::RegexBuilder::new(pattern)
        .case_insensitive(case_insensitive)
        .build()
        .map(|re| Matcher { re, source: pattern.to_string(), case_insensitive })
}

/// Relies on regex::Regex::is_match: whether there is a match anywhere in `line`.
#[verifier::external_body]
pub(crate) fn is_match(m: &Matcher, line: &str) -> (r: bool)
    ensures
        r == pattern_matches(m.source(), m.case_insensitive(), line@),
{
    m.re.is_match(line)
}

/// Relies on regex::Regex::find and regex::Match::as_str: the first match, as the
/// slice of `line` that it spans; there is one exactly when `is_match` holds.
#[verifier::external_body]
pub(crate) fn find<'a>(m: &Matcher, line: &'a str) -> (r: Option<&'a str>)
    ensures
        r matches Some(t) ==> first_match(m.source(), m.case_insensitive(), line@) == Some(t@),
        r is None ==> first_match(m.source(), m.case_insensitive(), line@) is None,
        r is Some <==> pattern_matches(m.source(), m.case_insensitive(), line@),
        r matches Some(t) ==> is_substring(t@, line@),
{
    m.re.find(line).map(|mat| mat.as_str())
}

} // verus!
