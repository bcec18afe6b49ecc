use vstd::prelude::*;

verus! {

#[verifier::external_type_specification]
#[verifier::external_body]
pub struct ExRegexSet(regex::RegexSet);

/// The pattern list a compiled set was built from.
pub uninterp spec fn set_patterns(rs: regex::RegexSet) -> Seq<Seq<char>>;

/// Whether `regex::RegexSet::new` accepts this pattern list; it fails exactly
/// when some single pattern of the list is not a valid expression.
pub uninterp spec fn patterns_compile(pats: Seq<Seq<char>>) -> bool;

/// Whether some pattern of the list matches the line.
pub uninterp spec fn any_pattern_matches(pats: Seq<Seq<char>>, line: Seq<char>) -> bool;

/// Relies on `regex::RegexSet::new`: compiles the whole pattern list, or
/// reports an error as soon as any single pattern is invalid; acceptance and
/// the compiled set are functions of the pattern list alone.
#[verifier::external_body]
pub(crate) fn compile_pattern_set(patterns: &Vec<String>) -> (r: Result<
    regex::RegexSet,
    String,
>)
    ensures
        r is Ok <==> patterns_compile(patterns.deep_view()),
        r is Ok ==> set_patterns(r->Ok_0) == patterns.deep_view(),
{
    regex::RegexSet::new(patterns).map_err(|e| e.to_string())
}

/// Relies on `regex::RegexSet::is_match`: true exactly when one of the set's
/// patterns matches somewhere in the line; the answer is a function of the
/// compiled pattern list and the line alone. The documentation further
/// promises that an empty set never matches anything.
#[verifier::external_body]
pub(crate) fn pattern_set_is_match(rs: &regex::RegexSet, line: &str) -> (r: bool)
    ensures
        r == any_pattern_matches(set_patterns(*rs), line@),
        set_patterns(*rs).len() == 0 ==> !r,
{
    rs.is_match(line)
}

/// Relies on `regex::RegexSet`'s derived `Clone`: the clone is the compiled
/// form of the same pattern list.
#[verifier::external_body]
pub(crate) fn clone_pattern_set(rs: &regex::RegexSet) -> (r: regex::RegexSet)
    ensures
        set_patterns(r) == set_patterns(*rs),
{
    rs.clone()
}

} // verus!
