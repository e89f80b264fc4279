//! The rule-based violation detector: five pattern categories, fixed
//! severities and confidences, context-sensitive downgrade and the
//! aggregate safety score.
//!
//! Confidences are in thousandths (0.95 is 950); severity weights are in
//! tenths (0.6 is 6); a safety score is in ten-thousandths (1.0 is 10000).

use vstd::prelude::*;
use crate::clock::{elapsed_ms, start_timer, utc_timestamp};
use crate::model::Severity;
use crate::patterns::{Pattern, compile_all, count_matches, find_first, first_match, match_count, regex_compiles, sources_of};
use crate::text::{contains_seq, contains_str, lower_of, lowercase};

verus! {

/// A safety score of 1.0, in ten-thousandths.
pub const SCORE_SCALE: u64 = 10000;

/// A confidence of 1.0, in thousandths.
pub const CONFIDENCE_SCALE: u64 = 1000;

/// The category a detected violation belongs to.
#[derive(Clone, Copy, Debug, PartialEq, Eq, Hash, Structural)]
pub enum ViolationKind {
    HarmfulContent,
    Bias,
    Privacy,
    IllegalContent,
    Misinformation,
}

/// The fixed severity of each category.
pub open spec fn kind_severity(k: ViolationKind) -> Severity {
    match k {
        ViolationKind::HarmfulContent => Severity::Critical,
        ViolationKind::Bias => Severity::High,
        ViolationKind::Privacy => Severity::High,
        ViolationKind::IllegalContent => Severity::Critical,
        ViolationKind::Misinformation => Severity::Medium,
    }
}

/// The fixed confidence of each category, in thousandths.
pub open spec fn kind_confidence(k: ViolationKind) -> nat {
    match k {
        ViolationKind::HarmfulContent => 950,
        ViolationKind::Bias => 800,
        ViolationKind::Privacy => 900,
        ViolationKind::IllegalContent => 850,
        ViolationKind::Misinformation => 750,
    }
}

/// The description attached to each category.
pub open spec fn kind_description(k: ViolationKind) -> Seq<char> {
    match k {
        ViolationKind::HarmfulContent => "Text contains potentially harmful content"@,
        ViolationKind::Bias => "Text contains potentially biased content"@,
        ViolationKind::Privacy => "Text contains personally identifiable information"@,
        ViolationKind::IllegalContent => "Text contains references to illegal activities"@,
        ViolationKind::Misinformation => "Text contains potential misinformation"@,
    }
}

/// The snake-case name of each category.
pub open spec fn kind_name(k: ViolationKind) -> Seq<char> {
    match k {
        ViolationKind::HarmfulContent => "harmful_content"@,
        ViolationKind::Bias => "bias"@,
        ViolationKind::Privacy => "privacy"@,
        ViolationKind::IllegalContent => "illegal_content"@,
        ViolationKind::Misinformation => "misinformation"@,
    }
}

impl ViolationKind {
    /// The snake-case name, such as "harmful_content".
    pub fn as_str(&self) -> (r: &'static str)
        ensures
            r@ == kind_name(*self),
    {
        match self {
            ViolationKind::HarmfulContent => "harmful_content",
            ViolationKind::Bias => "bias",
            ViolationKind::Privacy => "privacy",
            ViolationKind::IllegalContent => "illegal_content",
            ViolationKind::Misinformation => "misinformation",
        }
    }
}

/// One detected violation.
pub struct Violation {
    pub violation_type: ViolationKind,
    pub severity: Severity,
    pub description: String,
    /// In thousandths.
    pub confidence: u64,
    pub evidence: Vec<String>,
}

/// A violation as mathematical values.
pub struct ViolationView {
    pub violation_type: ViolationKind,
    pub severity: Severity,
    pub description: Seq<char>,
    pub confidence: nat,
    pub evidence: Seq<Seq<char>>,
}

/// The texts of a list of strings.
pub open spec fn texts_of(e: Seq<String>) -> Seq<Seq<char>> {
    e.map_values(|s: String| s@)
}

impl View for Violation {
    type V = ViolationView;

    open spec fn view(&self) -> ViolationView {
        ViolationView {
            violation_type: self.violation_type,
            severity: self.severity,
            description: self.description@,
            confidence: self.confidence as nat,
            evidence: texts_of(self.evidence@),
        }
    }
}

/// The views of a list of violations.
pub open spec fn views_of(vs: Seq<Violation>) -> Seq<ViolationView> {
    vs.map_values(|v: Violation| v@)
}

/// A violation of category `kind` as first detected, before any context adjustment.
pub open spec fn detected(kind: ViolationKind, evidence: Seq<Seq<char>>) -> ViolationView {
    ViolationView {
        violation_type: kind,
        severity: kind_severity(kind),
        description: kind_description(kind),
        confidence: kind_confidence(kind),
        evidence,
    }
}

/// One violation per pattern that matches `text`, in pattern order, with the
/// first match as evidence.
pub open spec fn first_match_hits(
    sources: Seq<Seq<char>>,
    text: Seq<char>,
    kind: ViolationKind,
) -> Seq<ViolationView>
    decreases sources.len(),
{
    if sources.len() == 0 {
        Seq::empty()
    } else {
        let prev = first_match_hits(sources.drop_last(), text, kind);
        match first_match(sources.last(), text) {
            Some(m) => prev.push(detected(kind, seq![m])),
            None => prev,
        }
    }
}

/// A privacy violation, whose evidence never holds the matched text.
pub open spec fn redacted_hit() -> ViolationView {
    detected(ViolationKind::Privacy, seq!["[REDACTED]"@])
}

/// One redacted privacy violation per match of each pattern, in pattern order.
pub open spec fn privacy_hits(sources: Seq<Seq<char>>, text: Seq<char>) -> Seq<ViolationView>
    decreases sources.len(),
{
    if sources.len() == 0 {
        Seq::empty()
    } else {
        privacy_hits(sources.drop_last(), text) + Seq::new(
            match_count(sources.last(), text),
            |i: int| redacted_hit(),
        )
    }
}

/// The pattern texts of the five categories.
pub struct RuleSources {
    pub harmful: Seq<Seq<char>>,
    pub bias: Seq<Seq<char>>,
    pub privacy: Seq<Seq<char>>,
    pub illegal: Seq<Seq<char>>,
    pub misinformation: Seq<Seq<char>>,
}

/// Every violation the five category checks report, in category order.
/// Privacy patterns scan the text as given; the others scan its lowercase form.
pub open spec fn raw_violations(rules: RuleSources, text: Seq<char>) -> Seq<ViolationView> {
    let lower = lower_of(text);
    first_match_hits(rules.harmful, lower, ViolationKind::HarmfulContent) + first_match_hits(
        rules.bias,
        lower,
        ViolationKind::Bias,
    ) + privacy_hits(rules.privacy, text) + first_match_hits(
        rules.illegal,
        lower,
        ViolationKind::IllegalContent,
    ) + first_match_hits(rules.misinformation, lower, ViolationKind::Misinformation)
}

/// A context that names a medical, educational, academic or research setting,
/// in any case.
pub open spec fn relaxing_context(context: Seq<char>) -> bool {
    let l = lower_of(context);
    contains_seq(l, "medical"@) || contains_seq(l, "educational"@) || contains_seq(
        l,
        "academic"@,
    ) || contains_seq(l, "research"@)
}

/// One step down in severity: critical becomes high with confidence times 0.7,
/// high becomes medium with confidence times 0.8 (rounded down); others stay.
pub open spec fn downgraded(v: ViolationView) -> ViolationView {
    match v.severity {
        Severity::Critical => ViolationView {
            violation_type: v.violation_type,
            severity: Severity::High,
            description: v.description,
            confidence: v.confidence * 7 / 10,
            evidence: v.evidence,
        },
        Severity::High => ViolationView {
            violation_type: v.violation_type,
            severity: Severity::Medium,
            description: v.description,
            confidence: v.confidence * 8 / 10,
            evidence: v.evidence,
        },
        _ => v,
    }
}

/// The violations after the context adjustment, applied once to each.
pub open spec fn adjusted(vs: Seq<ViolationView>, context: Option<Seq<char>>) -> Seq<ViolationView> {
    match context {
        Some(c) => if relaxing_context(c) {
            vs.map_values(|v: ViolationView| downgraded(v))
        } else {
            vs
        },
        None => vs,
    }
}

/// What `analyze` reports for `text` under `context`.
pub open spec fn final_violations(
    rules: RuleSources,
    text: Seq<char>,
    context: Option<Seq<char>>,
) -> Seq<ViolationView> {
    adjusted(raw_violations(rules, text), context)
}

/// Severity weights in tenths: low 0.1, medium 0.3, high 0.6, critical 1.0.
pub open spec fn severity_weight(s: Severity) -> nat {
    match s {
        Severity::Low => 1,
        Severity::Medium => 3,
        Severity::High => 6,
        Severity::Critical => 10,
    }
}

/// The sum of weight times confidence over the violations, in ten-thousandths.
pub open spec fn total_weight(vs: Seq<ViolationView>) -> nat
    decreases vs.len(),
{
    if vs.len() == 0 {
        0
    } else {
        total_weight(vs.drop_last()) + severity_weight(vs.last().severity) * vs.last().confidence
    }
}

/// `1 - min(1, total weight)`, in ten-thousandths.
pub open spec fn safety_score(vs: Seq<ViolationView>) -> nat {
    if total_weight(vs) >= SCORE_SCALE {
        0
    } else {
        (SCORE_SCALE - total_weight(vs)) as nat
    }
}

/// A context string as text, if there is one.
pub open spec fn context_view(context: Option<&str>) -> Option<Seq<char>> {
    match context {
        Some(c) => Some(c@),
        None => None,
    }
}

/// No pattern of any category matches the text.
pub open spec fn no_pattern_matches(rules: RuleSources, text: Seq<char>) -> bool {
    let lower = lower_of(text);
    &&& forall|i: int| 0 <= i < rules.harmful.len() ==> first_match(#[trigger] rules.harmful[i], lower) is None
    &&& forall|i: int| 0 <= i < rules.bias.len() ==> first_match(#[trigger] rules.bias[i], lower) is None
    &&& forall|i: int| 0 <= i < rules.privacy.len() ==> match_count(#[trigger] rules.privacy[i], text) == 0
    &&& forall|i: int| 0 <= i < rules.illegal.len() ==> first_match(#[trigger] rules.illegal[i], lower) is None
    &&& forall|i: int| 0 <= i < rules.misinformation.len() ==> first_match(#[trigger] rules.misinformation[i], lower) is None
}


/// Views distribute over concatenation.
pub proof fn lemma_views_concat(a: Seq<Violation>, b: Seq<Violation>)
    ensures
        views_of(a + b) == views_of(a) + views_of(b),
{
    assert(views_of(a + b) =~= views_of(a) + views_of(b));
}

/// The total weight of a concatenation is the sum of the totals.
pub proof fn lemma_total_weight_concat(a: Seq<ViolationView>, b: Seq<ViolationView>)
    ensures
        total_weight(a + b) == total_weight(a) + total_weight(b),
    decreases b.len(),
{
    if b.len() == 0 {
        assert(a + b =~= a);
    } else {
        assert((a + b).drop_last() =~= a + b.drop_last());
        lemma_total_weight_concat(a, b.drop_last());
    }
}

/// Builds a violation of category `kind` as first detected.
fn make_violation(kind: ViolationKind, evidence: Vec<String>) -> (r: Violation)
    ensures
        r@ == detected(kind, texts_of(evidence@)),
{
    let (severity, confidence, description) = match kind {
        ViolationKind::HarmfulContent => (
            Severity::Critical,
            950,
            "Text contains potentially harmful content",
        ),
        ViolationKind::Bias => (Severity::High, 800, "Text contains potentially biased content"),
        ViolationKind::Privacy => (
            Severity::High,
            900,
            "Text contains personally identifiable information",
        ),
        ViolationKind::IllegalContent => (
            Severity::Critical,
            850,
            "Text contains references to illegal activities",
        ),
        ViolationKind::Misinformation => (
            Severity::Medium,
            750,
            "Text contains potential misinformation",
        ),
    };
    Violation {
        violation_type: kind,
        severity,
        description: String::from_str(description),
        confidence,
        evidence,
    }
}

/// One violation per matching pattern, with the first match as evidence.
fn check_first_matches(patterns: &Vec<Pattern>, text: &str, kind: ViolationKind) -> (r: Vec<Violation>)
    ensures
        views_of(r@) == first_match_hits(sources_of(patterns@), text@, kind),
{
    let mut out: Vec<Violation> = Vec::new();
    let mut i: usize = 0;
    while i < patterns.len()
        invariant
            i <= patterns@.len(),
            views_of(out@) == first_match_hits(sources_of(patterns@.subrange(0, i as int)), text@, kind),
        decreases patterns@.len() - i,
    {
        let ghost prev = out@;
        assert(sources_of(patterns@.subrange(0, i + 1)).drop_last() =~= sources_of(
            patterns@.subrange(0, i as int),
        ));
        match find_first(&patterns[i], text) {
            Some(m) => {
                let mut evidence: Vec<String> = Vec::new();
                evidence.push(m);
                assert(texts_of(evidence@) =~= seq![evidence@[0]@]);
                out.push(make_violation(kind, evidence));
                assert(views_of(out@) =~= views_of(prev).push(out@.last()@));
            },
            None => {},
        }
        i = i + 1;
    }
    assert(patterns@.subrange(0, i as int) =~= patterns@);
    out
}

/// One redacted violation per match of each pattern.
fn check_all_matches_redacted(patterns: &Vec<Pattern>, text: &str) -> (r: Vec<Violation>)
    ensures
        views_of(r@) == privacy_hits(sources_of(patterns@), text@),
{
    let mut out: Vec<Violation> = Vec::new();
    let mut i: usize = 0;
    while i < patterns.len()
        invariant
            i <= patterns@.len(),
            views_of(out@) == privacy_hits(sources_of(patterns@.subrange(0, i as int)), text@),
        decreases patterns@.len() - i,
    {
        let ghost before = views_of(out@);
        assert(sources_of(patterns@.subrange(0, i + 1)).drop_last() =~= sources_of(
            patterns@.subrange(0, i as int),
        ));
        let n = count_matches(&patterns[i], text);
        let mut j: usize = 0;
        while j < n
            invariant
                j <= n,
                views_of(out@) == before + Seq::new(j as nat, |k: int| redacted_hit()),
            decreases n - j,
        {
            let ghost prev = out@;
            let mut evidence: Vec<String> = Vec::new();
            evidence.push(String::from_str("[REDACTED]"));
            assert(texts_of(evidence@) =~= seq!["[REDACTED]"@]);
            out.push(make_violation(ViolationKind::Privacy, evidence));
            assert(views_of(out@) =~= views_of(prev).push(out@.last()@));
            assert(before + Seq::new((j + 1) as nat, |k: int| redacted_hit()) =~= (before + Seq::new(
                j as nat,
                |k: int| redacted_hit(),
            )).push(redacted_hit()));
            j = j + 1;
        }
        i = i + 1;
    }
    assert(patterns@.subrange(0, i as int) =~= patterns@);
    out
}

/// `v` one step down in severity, as `downgraded` says.
fn downgrade(v: Violation) -> (r: Violation)
    ensures
        r@ == downgraded(v@),
{
    match v.severity {
        Severity::Critical => {
            let c = v.confidence / 10 * 7 + v.confidence % 10 * 7 / 10;
            assert(c == v.confidence * 7 / 10) by (nonlinear_arith)
                requires c == v.confidence / 10 * 7 + v.confidence % 10 * 7 / 10;
            Violation { severity: Severity::High, confidence: c, ..v }
        },
        Severity::High => {
            let c = v.confidence / 10 * 8 + v.confidence % 10 * 8 / 10;
            assert(c == v.confidence * 8 / 10) by (nonlinear_arith)
                requires c == v.confidence / 10 * 8 + v.confidence % 10 * 8 / 10;
            Violation { severity: Severity::Medium, confidence: c, ..v }
        },
        _ => v,
    }
}

/// Whether a lowercase context names a setting that relaxes severities.
fn names_relaxing_setting(lower: &str) -> (r: bool)
    ensures
        r == (contains_seq(lower@, "medical"@) || contains_seq(lower@, "educational"@)
            || contains_seq(lower@, "academic"@) || contains_seq(lower@, "research"@)),
{
    contains_str(lower, "medical") || contains_str(lower, "educational") || contains_str(
        lower,
        "academic",
    ) || contains_str(lower, "research")
}


/// The pattern texts the analyzer is built with.
pub open spec fn default_rules() -> RuleSources {
    RuleSources {
        harmful: seq![
            r"(?i)\b(kill|murder|assassinate|eliminate)\s+(someone|people|person)\b"@,
            r"(?i)\b(how\s+to\s+)?(make|create|build)\s+(an?\s+)?(bomb|weapon|explosive)\b"@,
            r"(?i)\b(suicide|self\s*harm|cut\s+myself)\b"@,
            r"(?i)\b(harm|hurt|damage|destroy)\s+(yourself|others|someone)\b"@,
            r"(?i)\b(violence|violent|attack|assault)\b"@,
        ],
        bias: seq![
            r"(?i)\b(women|men)\s+are\s+(naturally|always|never)\b"@,
            r"(?i)\b(black|white|asian|hispanic)\s+people\s+are\b"@,
            r"(?i)\b(muslims|christians|jews)\s+are\s+(all|always)\b"@,
            r"(?i)\b(old|young)\s+people\s+(can't|cannot|shouldn't)\b"@,
            r"(?i)\b(stereotype|prejudice|discriminate)\b"@,
        ],
        privacy: seq![
            r"\b\d{3}-\d{2}-\d{4}\b"@,
            r"\b\d{4}\s?\d{4}\s?\d{4}\s?\d{4}\b"@,
            r"\b[A-Za-z0-9._%+-]+@[A-Za-z0-9.-]+\.[A-Z|a-z]{2,}\b"@,
            r"\b\d{3}-\d{3}-\d{4}\b"@,
            r"\b\d{1,5}\s\w+\s(street|st|avenue|ave|road|rd|drive|dr)\b"@,
        ],
        illegal: seq![
            r"(?i)\b(illegal|criminal|unlawful)\s+activity\b"@,
            r"(?i)\b(drug\s+dealing|sell\s+drugs|buy\s+cocaine)\b"@,
            r"(?i)\b(money\s+laundering|tax\s+evasion)\b"@,
            r"(?i)\b(hack|steal|rob|fraud)\s+(someone|system|bank)\b"@,
        ],
        misinformation: seq![
            r"(?i)vaccines?\s+(cause|causes)\s+autism"@,
            r"(?i)covid\s+is\s+a\s+hoax"@,
            r"(?i)climate\s+change\s+is\s+(fake|hoax)"@,
            r"(?i)earth\s+is\s+flat"@,
            r"(?i)5g\s+(causes|spreads)\s+covid"@,
        ],
    }
}

/// Every pattern of the list is accepted by the regex engine.
pub open spec fn all_compile(sources: Seq<Seq<char>>) -> bool {
    forall|i: int| 0 <= i < sources.len() ==> regex_compiles(#[trigger] sources[i])
}

/// Every pattern of every category is accepted by the regex engine.
pub open spec fn rules_compile(rules: RuleSources) -> bool {
    &&& all_compile(rules.harmful)
    &&& all_compile(rules.bias)
    &&& all_compile(rules.privacy)
    &&& all_compile(rules.illegal)
    &&& all_compile(rules.misinformation)
}

/// The texts of a list of string slices.
pub open spec fn str_texts(v: Seq<&str>) -> Seq<Seq<char>> {
    v.map_values(|s: &str| s@)
}

fn harmful_sources() -> (r: Vec<&'static str>)
    ensures
        str_texts(r@) == default_rules().harmful,
{
    let mut v: Vec<&'static str> = Vec::new();
    v.push(r"(?i)\b(kill|murder|assassinate|eliminate)\s+(someone|people|person)\b");
    v.push(r"(?i)\b(how\s+to\s+)?(make|create|build)\s+(an?\s+)?(bomb|weapon|explosive)\b");
    v.push(r"(?i)\b(suicide|self\s*harm|cut\s+myself)\b");
    v.push(r"(?i)\b(harm|hurt|damage|destroy)\s+(yourself|others|someone)\b");
    v.push(r"(?i)\b(violence|violent|attack|assault)\b");
    assert(str_texts(v@) =~= default_rules().harmful);
    v
}

fn bias_sources() -> (r: Vec<&'static str>)
    ensures
        str_texts(r@) == default_rules().bias,
{
    let mut v: Vec<&'static str> = Vec::new();
    v.push(r"(?i)\b(women|men)\s+are\s+(naturally|always|never)\b");
    v.push(r"(?i)\b(black|white|asian|hispanic)\s+people\s+are\b");
    v.push(r"(?i)\b(muslims|christians|jews)\s+are\s+(all|always)\b");
    v.push(r"(?i)\b(old|young)\s+people\s+(can't|cannot|shouldn't)\b");
    v.push(r"(?i)\b(stereotype|prejudice|discriminate)\b");
    assert(str_texts(v@) =~= default_rules().bias);
    v
}

fn privacy_sources() -> (r: Vec<&'static str>)
    ensures
        str_texts(r@) == default_rules().privacy,
{
    let mut v: Vec<&'static str> = Vec::new();
    // social security number
    v.push(r"\b\d{3}-\d{2}-\d{4}\b");
    // card number
    v.push(r"\b\d{4}\s?\d{4}\s?\d{4}\s?\d{4}\b");
    // email address
    v.push(r"\b[A-Za-z0-9._%+-]+@[A-Za-z0-9.-]+\.[A-Z|a-z]{2,}\b");
    // phone number
    v.push(r"\b\d{3}-\d{3}-\d{4}\b");
    // street address
    v.push(r"\b\d{1,5}\s\w+\s(street|st|avenue|ave|road|rd|drive|dr)\b");
    assert(str_texts(v@) =~= default_rules().privacy);
    v
}

fn illegal_sources() -> (r: Vec<&'static str>)
    ensures
        str_texts(r@) == default_rules().illegal,
{
    let mut v: Vec<&'static str> = Vec::new();
    v.push(r"(?i)\b(illegal|criminal|unlawful)\s+activity\b");
    v.push(r"(?i)\b(drug\s+dealing|sell\s+drugs|buy\s+cocaine)\b");
    v.push(r"(?i)\b(money\s+laundering|tax\s+evasion)\b");
    v.push(r"(?i)\b(hack|steal|rob|fraud)\s+(someone|system|bank)\b");
    assert(str_texts(v@) =~= default_rules().illegal);
    v
}

fn misinformation_sources() -> (r: Vec<&'static str>)
    ensures
        str_texts(r@) == default_rules().misinformation,
{
    let mut v: Vec<&'static str> = Vec::new();
    v.push(r"(?i)vaccines?\s+(cause|causes)\s+autism");
    v.push(r"(?i)covid\s+is\s+a\s+hoax");
    v.push(r"(?i)climate\s+change\s+is\s+(fake|hoax)");
    v.push(r"(?i)earth\s+is\s+flat");
    v.push(r"(?i)5g\s+(causes|spreads)\s+covid");
    assert(str_texts(v@) =~= default_rules().misinformation);
    v
}

/// Compiles a category's pattern list.
fn compile_category(sources: Vec<&'static str>) -> (r: Option<Vec<Pattern>>)
    ensures
        r is Some <==> all_compile(str_texts(sources@)),
        r matches Some(ps) ==> sources_of(ps@) == str_texts(sources@),
{
    let r = compile_all(&sources);
    assert(r is Some <==> all_compile(str_texts(sources@))) by {
        if all_compile(str_texts(sources@)) {
            assert forall|i: int| 0 <= i < sources@.len() implies regex_compiles(
                #[trigger] sources@[i]@,
            ) by {
                assert(str_texts(sources@)[i] == sources@[i]@);
            }
        }
        if r is Some {
            assert forall|i: int| 0 <= i < str_texts(sources@).len() implies regex_compiles(
                #[trigger] str_texts(sources@)[i],
            ) by {
                assert(regex_compiles(sources@[i]@));
            }
        }
    }
    r
}

/// The result of one analysis.
pub struct SafetyResult {
    /// No violation was found.
    pub safe: bool,
    /// In ten-thousandths: 10000 is entirely safe.
    pub score: u64,
    pub violations: Vec<Violation>,
    pub metadata: AnalysisMetadata,
}

/// What was measured around one analysis.
pub struct AnalysisMetadata {
    pub analysis_time_ms: u64,
    pub model_version: String,
    /// RFC 3339; empty when the clock cannot be read as a date.
    pub timestamp: String,
    /// In bytes.
    pub text_length: usize,
    /// The number of violations before the context adjustment.
    pub pattern_matches: usize,
}

/// The rule-based detector: one list of compiled patterns per category.
pub struct SafetyAnalyzer {
    harmful_patterns: Vec<Pattern>,
    bias_patterns: Vec<Pattern>,
    privacy_patterns: Vec<Pattern>,
    illegal_patterns: Vec<Pattern>,
    misinformation_patterns: Vec<Pattern>,
}

impl SafetyAnalyzer {
    /// The pattern texts this analyzer holds.
    pub closed spec fn rules(&self) -> RuleSources {
        RuleSources {
            harmful: sources_of(self.harmful_patterns@),
            bias: sources_of(self.bias_patterns@),
            privacy: sources_of(self.privacy_patterns@),
            illegal: sources_of(self.illegal_patterns@),
            misinformation: sources_of(self.misinformation_patterns@),
        }
    }

    /// Compiles the fixed rule set; `None` only if the regex engine refuses one
    /// of its patterns.
    pub fn new() -> (r: Option<SafetyAnalyzer>)
        ensures
            r is Some <==> rules_compile(default_rules()),
            r matches Some(a) ==> a.rules() == default_rules(),
    {
        let harmful_patterns = match compile_category(harmful_sources()) {
            Some(ps) => ps,
            None => return None,
        };
        let bias_patterns = match compile_category(bias_sources()) {
            Some(ps) => ps,
            None => return None,
        };
        let privacy_patterns = match compile_category(privacy_sources()) {
            Some(ps) => ps,
            None => return None,
        };
        let illegal_patterns = match compile_category(illegal_sources()) {
            Some(ps) => ps,
            None => return None,
        };
        let misinformation_patterns = match compile_category(misinformation_sources()) {
            Some(ps) => ps,
            None => return None,
        };
        Some(
            SafetyAnalyzer {
                harmful_patterns,
                bias_patterns,
                privacy_patterns,
                illegal_patterns,
                misinformation_patterns,
            },
        )
    }

    fn check_harmful_content(&self, text_lower: &str) -> (r: Vec<Violation>)
        ensures
            views_of(r@) == first_match_hits(self.rules().harmful, text_lower@, ViolationKind::HarmfulContent),
    {
        check_first_matches(&self.harmful_patterns, text_lower, ViolationKind::HarmfulContent)
    }

    fn check_bias(&self, text_lower: &str) -> (r: Vec<Violation>)
        ensures
            views_of(r@) == first_match_hits(self.rules().bias, text_lower@, ViolationKind::Bias),
    {
        check_first_matches(&self.bias_patterns, text_lower, ViolationKind::Bias)
    }

    fn check_privacy(&self, text: &str) -> (r: Vec<Violation>)
        ensures
            views_of(r@) == privacy_hits(self.rules().privacy, text@),
    {
        check_all_matches_redacted(&self.privacy_patterns, text)
    }

    fn check_illegal_content(&self, text_lower: &str) -> (r: Vec<Violation>)
        ensures
            views_of(r@) == first_match_hits(self.rules().illegal, text_lower@, ViolationKind::IllegalContent),
    {
        check_first_matches(&self.illegal_patterns, text_lower, ViolationKind::IllegalContent)
    }

    fn check_misinformation(&self, text_lower: &str) -> (r: Vec<Violation>)
        ensures
            views_of(r@) == first_match_hits(
                self.rules().misinformation,
                text_lower@,
                ViolationKind::Misinformation,
            ),
    {
        check_first_matches(&self.misinformation_patterns, text_lower, ViolationKind::Misinformation)
    }

    /// Downgrades every violation one step when the context names a medical,
    /// educational, academic or research setting.
    pub fn adjust_for_context(&self, violations: &mut Vec<Violation>, context: &str)
        ensures
            views_of(final(violations)@) == adjusted(views_of(old(violations)@), Some(context@)),
    {
        let context_lower = lowercase(context);
        if !names_relaxing_setting(context_lower.as_str()) {
            return;
        }
        let mut pending: Vec<Violation> = Vec::new();
        std::mem::swap(violations, &mut pending);
        let ghost all = pending@;
        let total: usize = pending.len();
        let mut i: usize = 0;
        while pending.len() > 0
            invariant
                total == all.len(),
                i + pending@.len() == all.len(),
                pending@ == all.subrange(i as int, all.len() as int),
                views_of(violations@) == views_of(all.subrange(0, i as int)).map_values(
                    |v: ViolationView| downgraded(v),
                ),
            decreases pending@.len(),
        {
            let ghost before = violations@;
            let v = pending.remove(0);
            violations.push(downgrade(v));
            assert(all.subrange(0, i + 1) =~= all.subrange(0, i as int).push(v));
            assert(views_of(violations@) =~= views_of(before).push(violations@.last()@));
            assert(views_of(all.subrange(0, i + 1)).map_values(|w: ViolationView| downgraded(w))
                =~= views_of(all.subrange(0, i as int)).map_values(
                |w: ViolationView| downgraded(w),
            ).push(downgraded(v@)));
            assert(pending@ =~= all.subrange(i + 1, all.len() as int));
            i = i + 1;
        }
        assert(all.subrange(0, i as int) =~= all);
    }

    /// `1 - min(1, sum of weight times confidence)`, in ten-thousandths.
    pub fn calculate_safety_score(&self, violations: &[Violation]) -> (r: u64)
        ensures
            r as nat == safety_score(views_of(violations@)),
    {
        let mut total: u64 = 0;
        let mut i: usize = 0;
        while i < violations.len()
            invariant
                i <= violations@.len(),
                total as nat == if total_weight(views_of(violations@.subrange(0, i as int)))
                    >= SCORE_SCALE {
                    SCORE_SCALE as nat
                } else {
                    total_weight(views_of(violations@.subrange(0, i as int)))
                },
            decreases violations@.len() - i,
        {
            let v = &violations[i];
            let weight: u64 = match v.severity {
                Severity::Low => 1,
                Severity::Medium => 3,
                Severity::High => 6,
                Severity::Critical => 10,
            };
            let ghost prefix = views_of(violations@.subrange(0, i as int));
            assert(views_of(violations@.subrange(0, i + 1)) =~= prefix.push(v@));
            assert(views_of(violations@.subrange(0, i + 1)).drop_last() =~= prefix);
            if v.confidence >= SCORE_SCALE || total + weight * v.confidence >= SCORE_SCALE {
                assert(weight * v.confidence >= v.confidence) by (nonlinear_arith)
                    requires weight >= 1;
                total = SCORE_SCALE;
            } else {
                total = total + weight * v.confidence;
            }
            i = i + 1;
        }
        assert(violations@.subrange(0, i as int) =~= violations@);
        SCORE_SCALE - total
    }
}


impl SafetyAnalyzer {
    /// Runs the five category checks over `text`, applies the context
    /// adjustment once, and scores the result.
    pub fn analyze(&self, text: &str, context: Option<&str>) -> (r: SafetyResult)
        ensures
            views_of(r.violations@) == final_violations(self.rules(), text@, context_view(context)),
            r.safe == (r.violations@.len() == 0),
            r.score as nat == safety_score(views_of(r.violations@)),
            r.metadata.pattern_matches as nat == raw_violations(self.rules(), text@).len(),
            r.metadata.text_length == text.len(),
            r.metadata.model_version@ == "1.0.0"@,
            no_pattern_matches(self.rules(), text@) ==> r.safe && r.score == SCORE_SCALE,
            harmful_pattern_matches(self.rules(), text@) && context is None ==> !r.safe && r.score
                <= 500,
            forall|i: int|
                0 <= i < r.violations@.len() && (#[trigger] r.violations@[i]).violation_type
                    == ViolationKind::Privacy ==> r.violations@[i]@.evidence == seq!["[REDACTED]"@],
    {
        let start = start_timer();
        let text_lower = lowercase(text);
        let mut violations = self.check_harmful_content(text_lower.as_str());
        let mut bias = self.check_bias(text_lower.as_str());
        let mut privacy = self.check_privacy(text);
        let mut illegal = self.check_illegal_content(text_lower.as_str());
        let mut misinformation = self.check_misinformation(text_lower.as_str());
        let ghost (h, b, p, il, m) = (violations@, bias@, privacy@, illegal@, misinformation@);
        violations.append(&mut bias);
        violations.append(&mut privacy);
        violations.append(&mut illegal);
        violations.append(&mut misinformation);
        proof {
            lemma_views_concat(h, b);
            lemma_views_concat(h + b, p);
            lemma_views_concat(h + b + p, il);
            lemma_views_concat(h + b + p + il, m);
        }
        let pattern_matches = violations.len();
        match context {
            Some(ctx) => self.adjust_for_context(&mut violations, ctx),
            None => {},
        }
        let safe = violations.len() == 0;
        let score = self.calculate_safety_score(violations.as_slice());
        proof {
            lemma_clean_text_is_safe(self.rules(), text@, context_view(context));
            lemma_harmful_match_scores_low(self.rules(), text@);
            lemma_privacy_evidence_redacted(self.rules(), text@, context_view(context));
            assert forall|i: int|
                0 <= i < violations@.len() && (#[trigger] violations@[i]).violation_type
                    == ViolationKind::Privacy implies violations@[i]@.evidence == seq![
                "[REDACTED]"@,
            ] by {
                assert(views_of(violations@)[i] == violations@[i]@);
            }
        }
        let analysis_time_ms = elapsed_ms(&start);
        SafetyResult {
            safe,
            score,
            violations,
            metadata: AnalysisMetadata {
                analysis_time_ms,
                model_version: String::from_str("1.0.0"),
                timestamp: match utc_timestamp() {
                    Some(t) => t,
                    None => String::new(),
                },
                text_length: text.len(),
                pattern_matches,
            },
        }
    }
}

/// Some harmful-content pattern matches the lowercase text.
pub open spec fn harmful_pattern_matches(rules: RuleSources, text: Seq<char>) -> bool {
    exists|i: int| 0 <= i < rules.harmful.len() && first_match(#[trigger] rules.harmful[i], lower_of(text)) is Some
}

proof fn lemma_first_match_hits_empty(sources: Seq<Seq<char>>, text: Seq<char>, kind: ViolationKind)
    requires
        forall|i: int| 0 <= i < sources.len() ==> first_match(#[trigger] sources[i], text) is None,
    ensures
        first_match_hits(sources, text, kind).len() == 0,
    decreases sources.len(),
{
    if sources.len() > 0 {
        assert(first_match(sources[sources.len() - 1], text) is None);
        lemma_first_match_hits_empty(sources.drop_last(), text, kind);
    }
}

proof fn lemma_privacy_hits_empty(sources: Seq<Seq<char>>, text: Seq<char>)
    requires
        forall|i: int| 0 <= i < sources.len() ==> match_count(#[trigger] sources[i], text) == 0,
    ensures
        privacy_hits(sources, text).len() == 0,
    decreases sources.len(),
{
    if sources.len() > 0 {
        assert(match_count(sources[sources.len() - 1], text) == 0);
        lemma_privacy_hits_empty(sources.drop_last(), text);
    }
}

/// Text that no pattern of any category matches is safe with a perfect score,
/// under any context.
pub proof fn lemma_clean_text_is_safe(rules: RuleSources, text: Seq<char>, context: Option<Seq<char>>)
    ensures
        no_pattern_matches(rules, text) ==> final_violations(rules, text, context).len() == 0
            && safety_score(final_violations(rules, text, context)) == SCORE_SCALE,
{
    if no_pattern_matches(rules, text) {
        let lower = lower_of(text);
        lemma_first_match_hits_empty(rules.harmful, lower, ViolationKind::HarmfulContent);
        lemma_first_match_hits_empty(rules.bias, lower, ViolationKind::Bias);
        lemma_privacy_hits_empty(rules.privacy, text);
        lemma_first_match_hits_empty(rules.illegal, lower, ViolationKind::IllegalContent);
        lemma_first_match_hits_empty(rules.misinformation, lower, ViolationKind::Misinformation);
        assert(raw_violations(rules, text).len() == 0);
        let f = final_violations(rules, text, context);
        assert(f.len() == 0);
        assert(total_weight(f) == 0);
    }
}

proof fn lemma_first_match_hits_weight(sources: Seq<Seq<char>>, text: Seq<char>, i: int)
    requires
        0 <= i < sources.len(),
        first_match(sources[i], text) is Some,
    ensures
        total_weight(first_match_hits(sources, text, ViolationKind::HarmfulContent)) >= 9500,
    decreases sources.len(),
{
    let hits = first_match_hits(sources, text, ViolationKind::HarmfulContent);
    if i == sources.len() - 1 {
        let m = first_match(sources.last(), text)->Some_0;
        assert(hits.drop_last() == first_match_hits(sources.drop_last(), text, ViolationKind::HarmfulContent));
        assert(hits.last() == detected(ViolationKind::HarmfulContent, seq![m]));
        assert(total_weight(hits) == total_weight(hits.drop_last()) + 10 * 950);
    } else {
        assert(sources.drop_last()[i] == sources[i]);
        lemma_first_match_hits_weight(sources.drop_last(), text, i);
        let prev = first_match_hits(sources.drop_last(), text, ViolationKind::HarmfulContent);
        match first_match(sources.last(), text) {
            Some(m) => {
                assert(hits.drop_last() =~= prev);
                assert(total_weight(hits) >= total_weight(prev));
            },
            None => {},
        }
    }
}

/// Without a context, text that matches a harmful-content pattern is unsafe and
/// scores at most 0.05: that one violation alone weighs 1.0 times 0.95.
pub proof fn lemma_harmful_match_scores_low(rules: RuleSources, text: Seq<char>)
    ensures
        harmful_pattern_matches(rules, text) ==> final_violations(rules, text, None).len() > 0
            && safety_score(final_violations(rules, text, None)) <= 500,
{
    if harmful_pattern_matches(rules, text) {
        let lower = lower_of(text);
        let i = choose|i: int| 0 <= i < rules.harmful.len() && first_match(#[trigger] rules.harmful[i], lower) is Some;
        lemma_first_match_hits_weight(rules.harmful, lower, i);
        let h = first_match_hits(rules.harmful, lower, ViolationKind::HarmfulContent);
        let rest = first_match_hits(rules.bias, lower, ViolationKind::Bias) + privacy_hits(
            rules.privacy,
            text,
        ) + first_match_hits(rules.illegal, lower, ViolationKind::IllegalContent) + first_match_hits(
            rules.misinformation,
            lower,
            ViolationKind::Misinformation,
        );
        assert(raw_violations(rules, text) =~= h + rest);
        lemma_total_weight_concat(h, rest);
        if h.len() == 0 {
            assert(total_weight(h) == 0);
        }
    }
}

proof fn lemma_first_match_hits_kind(sources: Seq<Seq<char>>, text: Seq<char>, kind: ViolationKind)
    ensures
        forall|i: int| 0 <= i < first_match_hits(sources, text, kind).len() ==> (#[trigger] first_match_hits(sources, text, kind)[i]).violation_type == kind,
    decreases sources.len(),
{
    if sources.len() > 0 {
        lemma_first_match_hits_kind(sources.drop_last(), text, kind);
    }
}

proof fn lemma_privacy_hits_redacted(sources: Seq<Seq<char>>, text: Seq<char>)
    ensures
        forall|i: int| 0 <= i < privacy_hits(sources, text).len() ==> #[trigger] privacy_hits(sources, text)[i] == redacted_hit(),
    decreases sources.len(),
{
    if sources.len() > 0 {
        lemma_privacy_hits_redacted(sources.drop_last(), text);
        let prev = privacy_hits(sources.drop_last(), text);
        let extra = Seq::new(match_count(sources.last(), text), |i: int| redacted_hit());
        assert forall|i: int| 0 <= i < privacy_hits(sources, text).len() implies #[trigger] privacy_hits(sources, text)[i] == redacted_hit() by {
            if i < prev.len() {
                assert(privacy_hits(sources, text)[i] == prev[i]);
            } else {
                assert(privacy_hits(sources, text)[i] == extra[i - prev.len()]);
            }
        }
    }
}

/// Every privacy violation carries "[REDACTED]" as its only evidence, never the
/// matched text, under any context.
pub proof fn lemma_privacy_evidence_redacted(rules: RuleSources, text: Seq<char>, context: Option<Seq<char>>)
    ensures
        forall|i: int| 0 <= i < final_violations(rules, text, context).len() && (#[trigger] final_violations(rules, text, context)[i]).violation_type == ViolationKind::Privacy
            ==> final_violations(rules, text, context)[i].evidence == seq!["[REDACTED]"@],
{
    let lower = lower_of(text);
    let a = first_match_hits(rules.harmful, lower, ViolationKind::HarmfulContent);
    let b = first_match_hits(rules.bias, lower, ViolationKind::Bias);
    let p = privacy_hits(rules.privacy, text);
    let c = first_match_hits(rules.illegal, lower, ViolationKind::IllegalContent);
    let d = first_match_hits(rules.misinformation, lower, ViolationKind::Misinformation);
    lemma_first_match_hits_kind(rules.harmful, lower, ViolationKind::HarmfulContent);
    lemma_first_match_hits_kind(rules.bias, lower, ViolationKind::Bias);
    lemma_privacy_hits_redacted(rules.privacy, text);
    lemma_first_match_hits_kind(rules.illegal, lower, ViolationKind::IllegalContent);
    lemma_first_match_hits_kind(rules.misinformation, lower, ViolationKind::Misinformation);
    let raw = raw_violations(rules, text);
    assert(raw =~= a + b + p + c + d);
    assert forall|i: int| 0 <= i < raw.len() && (#[trigger] raw[i]).violation_type == ViolationKind::Privacy implies raw[i].evidence == seq!["[REDACTED]"@] by {
        if i < a.len() {
            assert(raw[i] == a[i]);
        } else if i < a.len() + b.len() {
            assert(raw[i] == b[i - a.len()]);
        } else if i < a.len() + b.len() + p.len() {
            assert(raw[i] == p[i - a.len() - b.len()]);
        } else if i < a.len() + b.len() + p.len() + c.len() {
            assert(raw[i] == c[i - a.len() - b.len() - p.len()]);
        } else {
            assert(raw[i] == d[i - a.len() - b.len() - p.len() - c.len()]);
        }
    }
    let f = final_violations(rules, text, context);
    assert forall|i: int| 0 <= i < f.len() && (#[trigger] f[i]).violation_type == ViolationKind::Privacy implies f[i].evidence == seq!["[REDACTED]"@] by {
        assert(f[i].violation_type == raw[i].violation_type && f[i].evidence == raw[i].evidence);
    }
}

/// In an educational context a lone critical violation becomes high, with its
/// confidence times 0.7; its category, description and evidence stay.
pub proof fn lemma_educational_context_downgrades(v: ViolationView, context: Seq<char>)
    requires
        v.severity == Severity::Critical,
        contains_seq(lower_of(context), "educational"@),
    ensures
        adjusted(seq![v], Some(context)) == seq![ViolationView {
            violation_type: v.violation_type,
            severity: Severity::High,
            description: v.description,
            confidence: v.confidence * 7 / 10,
            evidence: v.evidence,
        }],
{
    assert(relaxing_context(context));
    assert(adjusted(seq![v], Some(context)) =~= seq![downgraded(v)]);
}

} // verus!
