//! Compiled regular expressions, held together with the source they came from.

use vstd::prelude::*;

verus! {

#[verifier::external_type_specification]
#[verifier::external_body]
pub struct ExRegex(regex::Regex);

/// Whether `regex::Regex::new` accepts the pattern (syntax and default size limits).
pub uninterp spec fn regex_compiles(pattern: Seq<char>) -> bool;

/// The text of the leftmost-first match of `pattern` in `text`, if any.
pub uninterp spec fn first_match(pattern: Seq<char>, text: Seq<char>) -> Option<Seq<char>>;

/// The number of successive non-overlapping matches of `pattern` in `text`.
pub uninterp spec fn match_count(pattern: Seq<char>, text: Seq<char>) -> nat;

/// Relies on `regex::Regex::new`: it succeeds exactly on the patterns it accepts,
/// which depends on the pattern text alone.
#[verifier::external_body]
fn compile_regex(source: &str) -> (r: Option<regex::Regex>)
    ensures
        r is Some <==> regex_compiles(source@),
{
    regex::Regex::new(source).ok()
}

/// A regular expression compiled from `source`.
/// Only `Pattern::compile` builds one, so `compiled` always comes from `source`.
pub struct Pattern {
    source: String,
    compiled: regex::Regex,
}

/// Relies on `regex::Regex::find` and `regex::Match::as_str`: the matched text of
/// the leftmost-first match, for the expression compiled from `p.source`.
#[verifier::external_body]
pub(crate) fn find_first(p: &Pattern, text: &str) -> (r: Option<String>)
    ensures
        match r {
            Some(m) => first_match(p.source(), text@) == Some(m@),
            None => first_match(p.source(), text@) is None,
        },
{
    p.compiled.find(text).map(|m| m.as_str().to_string())
}

/// Relies on `regex::Regex::find_iter`: the number of successive non-overlapping
/// matches, for the expression compiled from `p.source`.
#[verifier::external_body]
pub(crate) fn count_matches(p: &Pattern, text: &str) -> (r: usize)
    ensures
        r as nat == match_count(p.source(), text@),
{
    p.compiled.find_iter(text).count()
}

impl Pattern {
    /// The pattern text this expression was compiled from.
    pub closed spec fn source(&self) -> Seq<char> {
        self.source@
    }

    /// Compiles `source`; `None` when the regex engine refuses it.
    pub fn compile(source: &str) -> (r: Option<Pattern>)
        ensures
            r is Some <==> regex_compiles(source@),
            r matches Some(p) ==> p.source() == source@,
    {
        match compile_regex(source) {
            Some(compiled) => Some(Pattern { source: String::from_str(source), compiled }),
            None => None,
        }
    }

    /// The pattern text.
    pub fn as_str(&self) -> (r: &str)
        ensures
            r@ == self.source(),
    {
        self.source.as_str()
    }
}

/// The sources of a list of patterns, in order.
pub open spec fn sources_of(ps: Seq<Pattern>) -> Seq<Seq<char>> {
    ps.map_values(|p: Pattern| p.source())
}

/// Compiles every source, in order; `None` if any of them is refused.
pub fn compile_all(sources: &Vec<&str>) -> (r: Option<Vec<Pattern>>)
    ensures
        r is Some <==> forall|i: int| 0 <= i < sources@.len() ==> regex_compiles(#[trigger] sources@[i]@),
        r matches Some(ps) ==> sources_of(ps@) == sources@.map_values(|s: &str| s@),
{
    let mut out: Vec<Pattern> = Vec::new();
    let mut i: usize = 0;
    while i < sources.len()
        invariant
            i <= sources@.len(),
            forall|k: int| 0 <= k < i ==> regex_compiles(#[trigger] sources@[k]@),
            sources_of(out@) == sources@.subrange(0, i as int).map_values(|s: &str| s@),
        decreases sources@.len() - i,
    {
        match Pattern::compile(sources[i]) {
            Some(p) => {
                let ghost prev = out@;
                out.push(p);
                assert(sources@.subrange(0, i + 1).map_values(|s: &str| s@) =~= sources@.subrange(
                    0,
                    i as int,
                ).map_values(|s: &str| s@).push(sources@[i as int]@));
                assert(sources_of(out@) =~= sources_of(prev).push(out@.last().source()));
            },
            None => {
                return None;
            },
        }
        i = i + 1;
    }
    assert(sources@.subrange(0, i as int) =~= sources@);
    Some(out)
}

} // verus!
