//! The patterns of a filter: regular expressions, kept with the text they
//! were compiled from.
//!
//! Compiling and matching are done by the `regex` crate. Nothing here is
//! proved about them: the contract of each function that calls it is taken
//! from that crate's documentation, and says so.

use regex::Regex;
use vstd::prelude::*;

verus! {

/// `regex::Regex`, a compiled regular expression.
#[verifier::external_type_specification]
#[verifier::external_body]
pub struct ExRegex(regex::Regex);

/// `regex::Error`, the reason why a pattern was not compiled.
#[verifier::external_type_specification]
#[verifier::external_body]
pub struct ExRegexError(regex::Error);

/// What `Regex::new` returns for a pattern: the compiled expression, or
/// the reason why the pattern is none.
pub uninterp spec fn regex_new(pattern: Seq<char>) -> Result<Regex, regex::Error>;

/// What `Regex::is_match` returns for the expression compiled from
/// `pattern` and a text: whether the expression matches anywhere in it.
pub uninterp spec fn pattern_matches(pattern: Seq<char>, text: Seq<char>) -> bool;

/// Calls `Regex::new`. Compilation depends on the pattern alone, so its
/// outcome is the one that `regex_new` names. Nothing is proved of it.
#[verifier::external_body]
fn compile_regex(pattern: &str) -> (compiled: Result<Regex, regex::Error>)
    ensures
        compiled == regex_new(pattern@),
{
    Regex::new(pattern)
}

/// `Regex::clone`: the copy is the same expression.
pub assume_specification[ <Regex as Clone>::clone ](regex: &Regex) -> (copy: Regex)
    ensures
        copy == *regex,
;

/// A compiled pattern. It holds the text of the pattern and the expression
/// that `Regex::new` made of that text, and never another expression.
#[derive(Debug)]
pub struct Pattern {
    source: String,
    compiled: Regex,
}

/// Calls `Regex::is_match` on the expression of a pattern. The expression
/// is the one compiled from the pattern's text, so the answer depends on
/// that text and the searched text alone: it is the one that
/// `pattern_matches` names. Nothing is proved of it.
#[verifier::external_body]
fn match_in(pattern: &Pattern, text: &str) -> (found: bool)
    ensures
        found == pattern_matches(pattern@, text@),
{
    pattern.compiled.is_match(text)
}

impl View for Pattern {
    type V = Seq<char>;

    /// The text of the pattern.
    closed spec fn view(&self) -> Seq<char> {
        self.source@
    }
}

impl Pattern {
    #[verifier::type_invariant]
    closed spec fn compiled_from_source(&self) -> bool {
        regex_new(self.source@) == Ok::<Regex, regex::Error>(self.compiled)
    }

    /// Compiles a pattern. A text that is no regular expression is
    /// refused, with the reason that the compiler gives.
    pub fn new(pattern: &str) -> (compiled: Result<Pattern, regex::Error>)
        ensures
            match regex_new(pattern@) {
                Ok(_) => compiled is Ok && compiled->Ok_0@ == pattern@,
                Err(cause) => compiled == Err::<Pattern, regex::Error>(cause),
            },
    {
        match compile_regex(pattern) {
            Ok(compiled) => Ok(Pattern { source: String::from_str(pattern), compiled }),
            Err(cause) => Err(cause),
        }
    }

    /// The text of the pattern.
    pub fn as_str(&self) -> (text: &str)
        ensures
            text@ == self@,
    {
        self.source.as_str()
    }

    /// Whether the pattern matches anywhere in a text.
    pub fn is_match(&self, text: &str) -> (found: bool)
        ensures
            found == pattern_matches(self@, text@),
    {
        match_in(self, text)
    }
}

impl Clone for Pattern {
    fn clone(&self) -> (copy: Self)
        ensures
            copy@ == self@,
    {
        proof {
            use_type_invariant(self);
        }
        Pattern { source: self.source.clone(), compiled: self.compiled.clone() }
    }
}

/// The text of each pattern of a list.
pub open spec fn sources(patterns: Seq<Pattern>) -> Seq<Seq<char>> {
    patterns.map_values(|pattern: Pattern| pattern@)
}

/// Copies a list of patterns, one by one.
pub fn clone_all(patterns: &Vec<Pattern>) -> (copies: Vec<Pattern>)
    ensures
        sources(copies@) == sources(patterns@),
{
    let mut copies: Vec<Pattern> = Vec::new();
    let mut i: usize = 0;
    while i < patterns.len()
        invariant
            i <= patterns.len(),
            sources(copies@) == sources(patterns@.take(i as int)),
        decreases patterns.len() - i,
    {
        let ghost before = copies@;
        let copy = patterns[i].clone();
        copies.push(copy);
        proof {
            assert(sources(copies@) =~= sources(before).push(copy@));
            assert(sources(patterns@.take(i + 1)) =~= sources(patterns@.take(i as int)).push(
                patterns@[i as int]@,
            ));
        }
        i += 1;
    }
    proof {
        assert(patterns@.take(patterns.len() as int) =~= patterns@);
    }
    copies
}

/// Whether the results of matching a path let it pass a filter: every
/// pattern to be matched has matched, and none of those to be avoided has.
pub open spec fn passes(matched: Seq<bool>, avoided: Seq<bool>) -> bool {
    &&& forall|i: int| 0 <= i < matched.len() ==> #[trigger] matched[i]
    &&& forall|j: int| 0 <= j < avoided.len() ==> !#[trigger] avoided[j]
}

/// Whether each pattern of a list matches a text.
pub open spec fn match_results(patterns: Seq<Seq<char>>, text: Seq<char>) -> Seq<bool> {
    patterns.map_values(|pattern: Seq<char>| pattern_matches(pattern, text))
}

/// Whether a path passes a filter: every pattern to be matched matches it,
/// and none of the patterns to be avoided does.
pub open spec fn accepts(includes: Seq<Seq<char>>, excludes: Seq<Seq<char>>, path: Seq<char>)
    -> bool {
    passes(match_results(includes, path), match_results(excludes, path))
}

/// Decides from the results of matching whether a path passes a filter.
pub fn filter_passes(matched: &Vec<bool>, avoided: &Vec<bool>) -> (passed: bool)
    ensures
        passed == passes(matched@, avoided@),
{
    let mut i: usize = 0;
    while i < matched.len()
        invariant
            i <= matched.len(),
            forall|k: int| 0 <= k < i ==> #[trigger] matched@[k],
        decreases matched.len() - i,
    {
        if !matched[i] {
            return false;
        }
        i += 1;
    }
    let mut j: usize = 0;
    while j < avoided.len()
        invariant
            j <= avoided.len(),
            forall|k: int| 0 <= k < matched.len() ==> #[trigger] matched@[k],
            forall|k: int| 0 <= k < j ==> !#[trigger] avoided@[k],
        decreases avoided.len() - j,
    {
        if avoided[j] {
            return false;
        }
        j += 1;
    }
    true
}

/// Matches each pattern of a list against a text.
pub fn match_each(patterns: &Vec<Pattern>, text: &str) -> (results: Vec<bool>)
    ensures
        results@ == match_results(sources(patterns@), text@),
{
    let mut results: Vec<bool> = Vec::new();
    let mut i: usize = 0;
    while i < patterns.len()
        invariant
            i <= patterns.len(),
            results@ == match_results(sources(patterns@), text@).take(i as int),
        decreases patterns.len() - i,
    {
        results.push(patterns[i].is_match(text));
        proof {
            assert(results@ =~= match_results(sources(patterns@), text@).take(i + 1));
        }
        i += 1;
    }
    proof {
        assert(match_results(sources(patterns@), text@).take(patterns.len() as int)
            =~= match_results(sources(patterns@), text@));
    }
    results
}

/// Tests a path against every pattern of a filter.
pub fn path_accepted(includes: &Vec<Pattern>, excludes: &Vec<Pattern>, path: &str) -> (accepted:
    bool)
    ensures
        accepted == accepts(sources(includes@), sources(excludes@), path@),
{
    let matched = match_each(includes, path);
    let avoided = match_each(excludes, path);
    filter_passes(&matched, &avoided)
}

} // verus!
