//! Safety-relevant concepts and the keywords that signal them, for the
//! interpretability report.

use vstd::prelude::*;
use crate::text::{contains_seq, contains_str, lower_of, lowercase};

verus! {

/// What was measured around one interpretability analysis.
#[derive(Clone, Debug)]
pub struct InterpretabilityMetadata {
    pub analysis_time_ms: u64,
    pub model_version: String,
    pub timestamp: String,
    /// In bytes.
    pub text_length: usize,
    pub num_tokens: usize,
}

/// Concepts, each with the keywords that signal it.
pub struct InterpretabilityAnalyzer {
    concept_mappings: Vec<(String, Vec<String>)>,
    safety_concepts: Vec<String>,
}

/// The texts of a list of strings.
pub open spec fn texts(v: Seq<String>) -> Seq<Seq<char>> {
    v.map_values(|s: String| s@)
}

/// The default concepts and their keywords, in order.
pub open spec fn default_mappings() -> Seq<(Seq<char>, Seq<Seq<char>>)> {
    seq![
        ("violence"@, seq!["harm"@, "hurt"@, "attack"@, "kill"@, "violence"@]),
        ("bias"@, seq!["stereotype"@, "prejudice"@, "discriminate"@, "racist"@, "sexist"@]),
        ("privacy"@, seq!["personal"@, "private"@, "confidential"@, "secret"@]),
        ("helpfulness"@, seq!["help"@, "assist"@, "support"@, "guide"@, "beneficial"@]),
        ("honesty"@, seq!["truth"@, "honest"@, "accurate"@, "factual"@, "reliable"@]),
    ]
}

/// Some keyword occurs in `text`.
pub open spec fn mentions_any(text: Seq<char>, keywords: Seq<Seq<char>>) -> bool {
    exists|k: int| 0 <= k < keywords.len() && contains_seq(text, #[trigger] keywords[k])
}

/// The position of the first concept with a keyword that occurs in `text`.
pub open spec fn first_concept(mappings: Seq<(Seq<char>, Seq<Seq<char>>)>, text: Seq<char>) -> Option<nat>
    decreases mappings.len(),
{
    if mappings.len() == 0 {
        None
    } else if mentions_any(text, mappings[0].1) {
        Some(0)
    } else {
        match first_concept(mappings.drop_first(), text) {
            Some(i) => Some(i + 1),
            None => None,
        }
    }
}

fn words(w0: &str, w1: &str, w2: &str, w3: &str, w4: Option<&str>) -> (r: Vec<String>)
    ensures
        texts(r@) == match w4 {
            Some(w) => seq![w0@, w1@, w2@, w3@, w@],
            None => seq![w0@, w1@, w2@, w3@],
        },
{
    let mut out: Vec<String> = Vec::new();
    out.push(String::from_str(w0));
    out.push(String::from_str(w1));
    out.push(String::from_str(w2));
    out.push(String::from_str(w3));
    match w4 {
        Some(w) => {
            out.push(String::from_str(w));
            assert(texts(out@) =~= seq![w0@, w1@, w2@, w3@, w@]);
        },
        None => {
            assert(texts(out@) =~= seq![w0@, w1@, w2@, w3@]);
        },
    }
    out
}

impl InterpretabilityAnalyzer {
    /// The concepts and their keywords, in order.
    pub closed spec fn mappings(&self) -> Seq<(Seq<char>, Seq<Seq<char>>)> {
        self.concept_mappings@.map_values(|e: (String, Vec<String>)| (e.0@, texts(e.1@)))
    }

    /// The concepts reported on, in order.
    pub closed spec fn concepts(&self) -> Seq<Seq<char>> {
        texts(self.safety_concepts@)
    }

    /// An analyzer with the violence, bias, privacy, helpfulness and honesty
    /// concepts.
    pub fn new() -> (r: InterpretabilityAnalyzer)
        ensures
            r.mappings() == default_mappings(),
            r.concepts() == seq!["violence"@, "bias"@, "privacy"@, "helpfulness"@, "honesty"@],
    {
        let mut concept_mappings: Vec<(String, Vec<String>)> = Vec::new();
        let violence = words("harm", "hurt", "attack", "kill", Some("violence"));
        concept_mappings.push((String::from_str("violence"), violence));
        let bias = words("stereotype", "prejudice", "discriminate", "racist", Some("sexist"));
        concept_mappings.push((String::from_str("bias"), bias));
        let privacy = words("personal", "private", "confidential", "secret", None);
        concept_mappings.push((String::from_str("privacy"), privacy));
        let helpfulness = words("help", "assist", "support", "guide", Some("beneficial"));
        concept_mappings.push((String::from_str("helpfulness"), helpfulness));
        let honesty = words("truth", "honest", "accurate", "factual", Some("reliable"));
        concept_mappings.push((String::from_str("honesty"), honesty));
        let safety_concepts = words("violence", "bias", "privacy", "helpfulness", Some("honesty"));
        let r = InterpretabilityAnalyzer { concept_mappings, safety_concepts };
        assert(r.mappings() =~= default_mappings());
        r
    }
}


proof fn lemma_first_concept_at(mappings: Seq<(Seq<char>, Seq<Seq<char>>)>, text: Seq<char>, i: int)
    requires
        0 <= i <= mappings.len(),
        forall|c: int| 0 <= c < i ==> !mentions_any(text, #[trigger] mappings[c].1),
    ensures
        i < mappings.len() && mentions_any(text, mappings[i].1) ==> first_concept(mappings, text) == Some(i as nat),
        i == mappings.len() ==> first_concept(mappings, text) is None,
    decreases i,
{
    if i > 0 {
        let rest = mappings.drop_first();
        assert forall|c: int| 0 <= c < i - 1 implies !mentions_any(text, #[trigger] rest[c].1) by {
            assert(rest[c] == mappings[c + 1]);
        }
        lemma_first_concept_at(rest, text, i - 1);
        assert(!mentions_any(text, mappings[0].1));
        if i < mappings.len() {
            assert(rest[i - 1] == mappings[i]);
        }
    }
}

impl InterpretabilityAnalyzer {
    /// The number of concepts with keywords.
    pub fn concept_count(&self) -> (r: usize)
        ensures
            r as nat == self.mappings().len(),
    {
        self.concept_mappings.len()
    }

    /// The name of the concept at `index`.
    pub fn concept_name(&self, index: usize) -> (r: &String)
        requires
            index < self.mappings().len(),
        ensures
            r@ == self.mappings()[index as int].0,
    {
        &self.concept_mappings[index].0
    }

    /// The keywords of the concept at `index`.
    pub fn keywords(&self, index: usize) -> (r: &Vec<String>)
        requires
            index < self.mappings().len(),
        ensures
            texts(r@) == self.mappings()[index as int].1,
    {
        &self.concept_mappings[index].1
    }

    /// The concepts reported on, in order.
    pub fn safety_concepts(&self) -> (r: &Vec<String>)
        ensures
            texts(r@) == self.concepts(),
    {
        &self.safety_concepts
    }

    /// The first concept, in order, with a keyword that occurs in the
    /// lowercase form of `token`.
    pub fn concept_for_token(&self, token: &str) -> (r: Option<usize>)
        ensures
            match r {
                Some(i) => first_concept(self.mappings(), lower_of(token@)) == Some(i as nat),
                None => first_concept(self.mappings(), lower_of(token@)) is None,
            },
    {
        let lower = lowercase(token);
        let ghost m = self.mappings();
        let mut i: usize = 0;
        while i < self.concept_mappings.len()
            invariant
                m == self.mappings(),
                lower@ == lower_of(token@),
                i <= m.len(),
                m.len() == self.concept_mappings@.len(),
                forall|c: int| 0 <= c < i ==> !mentions_any(lower@, #[trigger] m[c].1),
            decreases m.len() - i,
        {
            let keywords = &self.concept_mappings[i].1;
            assert(texts(keywords@) == m[i as int].1);
            let mut k: usize = 0;
            while k < keywords.len()
                invariant
                    m == self.mappings(),
                    lower@ == lower_of(token@),
                    i < m.len(),
                    forall|c: int| 0 <= c < i ==> !mentions_any(lower@, #[trigger] m[c].1),
                    texts(keywords@) == m[i as int].1,
                    k <= keywords@.len(),
                    forall|j: int| 0 <= j < k ==> !contains_seq(lower@, #[trigger] m[i as int].1[j]),
                decreases keywords@.len() - k,
            {
                if contains_str(lower.as_str(), keywords[k].as_str()) {
                    assert(contains_seq(lower@, m[i as int].1[k as int]));
                    proof {
                        lemma_first_concept_at(m, lower@, i as int);
                    }
                    return Some(i);
                }
                k = k + 1;
            }
            assert(!mentions_any(lower@, m[i as int].1));
            i = i + 1;
        }
        proof {
            lemma_first_concept_at(m, lower@, i as int);
        }
        None
    }
}

} // verus!
