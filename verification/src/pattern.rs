//! Exclusion rules: glob patterns that say which paths a scan leaves out.

use glob::{Pattern, PatternError};
use std::path::Path;
use vstd::prelude::*;

verus! {

/// `glob::Pattern`, a compiled glob pattern. Verus sees nothing inside it.
#[verifier::external_type_specification]
#[verifier::external_body]
pub struct ExPattern(Pattern);

/// `glob::PatternError`, the reason why a text is no glob pattern.
#[verifier::external_type_specification]
#[verifier::external_body]
pub struct ExPatternError(PatternError);

/// The text that a compiled pattern was made from. The pattern keeps it,
/// and `Pattern::as_str` hands it out again.
pub uninterp spec fn pattern_source(pattern: Pattern) -> Seq<char>;

/// Whether `Pattern::new` accepts `text` as a glob pattern, on the platform
/// the library is built for.
pub uninterp spec fn glob_well_formed(text: Seq<char>) -> bool;

/// Whether the pattern written as `pattern` matches `path` under glob's
/// default match options, on the platform the library is built for.
pub uninterp spec fn glob_matches(pattern: Seq<char>, path: Seq<char>) -> bool;

/// Calls `glob::Pattern::new`. Trusted: whether the call succeeds depends on
/// the text alone, and the pattern that comes back keeps that text as its
/// source. The call does not panic on any text.
#[verifier::external_body]
fn compile(text: &str) -> (compiled: Result<Pattern, PatternError>)
    ensures
        compiled is Ok <==> glob_well_formed(text@),
        compiled matches Ok(pattern) ==> pattern_source(pattern) == text@,
{
    Pattern::new(text)
}

/// Calls `glob::Pattern::matches_path` on `path` taken as a path. Trusted: a
/// path made from a string is matched as that string, under the default
/// match options, and the outcome depends only on the pattern's source and
/// on the string.
#[verifier::external_body]
fn pattern_matches_path(pattern: &Pattern, path: &str) -> (matched: bool)
    ensures
        matched == glob_matches(pattern_source(*pattern), path@),
{
    pattern.matches_path(Path::new(path))
}

/// A glob pattern for paths that a scan skips.
#[derive(Debug)]
pub struct ExclusionRule {
    pattern: Pattern,
}

/// Why a text was not accepted as an exclusion rule.
#[derive(Debug)]
pub struct InvalidPattern {
    /// The text that was rejected.
    pub text: String,
    /// What the glob compiler said of it.
    pub cause: PatternError,
}

impl View for ExclusionRule {
    type V = Seq<char>;

    /// The pattern as it was written.
    closed spec fn view(&self) -> Seq<char> {
        pattern_source(self.pattern)
    }
}

impl ExclusionRule {
    /// Compiles `text` into a rule, or says why it is no glob pattern.
    pub fn new(text: &str) -> (made: Result<ExclusionRule, InvalidPattern>)
        ensures
            made is Ok <==> glob_well_formed(text@),
            made matches Ok(rule) ==> rule@ == text@,
            made matches Err(error) ==> error.text@ == text@,
    {
        match compile(text) {
            Ok(pattern) => Ok(ExclusionRule { pattern }),
            Err(cause) => Err(InvalidPattern { text: text.to_owned(), cause }),
        }
    }
}

/// Some rule of `rules` matches `path`.
pub open spec fn is_excluded(path: Seq<char>, rules: Seq<Seq<char>>) -> bool {
    exists|i: int| 0 <= i < rules.len() && glob_matches(#[trigger] rules[i], path)
}

/// The patterns of `rules`, as written.
pub open spec fn rule_texts(rules: Seq<ExclusionRule>) -> Seq<Seq<char>> {
    rules.map_values(|rule: ExclusionRule| rule@)
}

/// For each rule of `rules`, whether it matches `path`.
pub open spec fn answers_of(path: Seq<char>, rules: Seq<Seq<char>>) -> Seq<bool> {
    Seq::new(rules.len(), |i: int| glob_matches(rules[i], path))
}

/// One of `answers` is true.
pub open spec fn some_true(answers: Seq<bool>) -> bool {
    exists|i: int| 0 <= i < answers.len() && #[trigger] answers[i]
}

/// Asks each rule whether it matches `path`.
pub fn answers(path: &str, rules: &[ExclusionRule]) -> (given: Vec<bool>)
    ensures
        given@ == answers_of(path@, rule_texts(rules@)),
{
    let mut given: Vec<bool> = Vec::new();
    let n: usize = rules.len();
    let mut i: usize = 0;
    while i < n
        invariant
            i <= n,
            n == rules@.len(),
            given@.len() == i,
            forall|k: int| 0 <= k < i ==> #[trigger] given@[k] == glob_matches(rules@[k]@, path@),
        decreases n - i,
    {
        given.push(pattern_matches_path(&rules[i].pattern, path));
        i = i + 1;
    }
    assert(given@ =~= answers_of(path@, rule_texts(rules@)));
    given
}

/// Whether a path is to be skipped, given what each rule answered: true
/// exactly when one of the answers is true. With no answers it is false.
pub fn any_match(answers: &[bool]) -> (skip: bool)
    ensures
        skip == some_true(answers@),
{
    let n: usize = answers.len();
    let mut i: usize = 0;
    while i < n
        invariant
            i <= n,
            n == answers@.len(),
            forall|k: int| 0 <= k < i ==> !#[trigger] answers@[k],
        decreases n - i,
    {
        if answers[i] {
            return true;
        }
        i = i + 1;
    }
    false
}

/// Whether `path` is to be skipped: true exactly when one of the rules
/// matches it. With no rules nothing is excluded.
pub fn excluded(path: &str, rules: &[ExclusionRule]) -> (skip: bool)
    ensures
        skip == is_excluded(path@, rule_texts(rules@)),
{
    let given = answers(path, rules);
    proof {
        let texts = rule_texts(rules@);
        if some_true(given@) {
            let i = choose|i: int| 0 <= i < given@.len() && #[trigger] given@[i];
            assert(glob_matches(texts[i], path@));
        }
        if is_excluded(path@, texts) {
            let i = choose|i: int| 0 <= i < texts.len() && glob_matches(#[trigger] texts[i], path@);
            assert(given@[i]);
        }
    }
    any_match(given.as_slice())
}

} // verus!
