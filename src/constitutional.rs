//! Holding content to a set of weighted principles.

use vstd::prelude::*;
use crate::model::{
    ConstitutionalAnalysis, ConstitutionalPrinciple, EnforcementLevel, PrincipleCategory,
    PrincipleScore, SafetyResult, Severity, Violation,
};

verus! {

/// The score every principle currently receives, in ten-thousandths.
pub const PRINCIPLE_SCORE: u64 = 8500;

/// The confidence of every principle evaluation, in ten-thousandths.
pub const PRINCIPLE_CONFIDENCE: u64 = 8500;

/// Overall compliance below this, in ten-thousandths, calls for human review.
pub const REVIEW_THRESHOLD: u64 = 7000;

/// The most a principle may weigh, in thousandths.
pub const MAX_WEIGHT: u64 = 1000;

/// The weights of a list of principles.
pub open spec fn weights_of(ps: Seq<ConstitutionalPrinciple>) -> Seq<nat> {
    ps.map_values(|p: ConstitutionalPrinciple| p.weight as nat)
}

/// The sum of score times weight.
pub open spec fn weighted_sum(scores: Seq<PrincipleScore>, weights: Seq<nat>) -> nat
    decreases scores.len(),
{
    if scores.len() == 0 || weights.len() == 0 {
        0
    } else {
        weighted_sum(scores.drop_last(), weights.drop_last()) + scores.last().score as nat
            * weights.last()
    }
}

/// The sum of the weights.
pub open spec fn weight_sum(weights: Seq<nat>) -> nat
    decreases weights.len(),
{
    if weights.len() == 0 {
        0
    } else {
        weight_sum(weights.drop_last()) + weights.last()
    }
}

/// The weighted mean of the scores, rounded down; 0 when nothing weighs.
pub open spec fn weighted_mean(scores: Seq<PrincipleScore>, weights: Seq<nat>) -> nat {
    if weight_sum(weights) == 0 {
        0
    } else {
        weighted_sum(scores, weights) / weight_sum(weights)
    }
}

/// Some principle score carries a critical violation.
pub open spec fn has_critical_violation(scores: Seq<PrincipleScore>) -> bool {
    exists|i: int, j: int|
        0 <= i < scores.len() && 0 <= j < scores[i].violations@.len()
            && (#[trigger] scores[i].violations@[j]).severity == Severity::Critical
}

/// The default principles as (id, name, weight, category, enforcement level).
pub open spec fn default_principle_fields() -> Seq<(Seq<char>, Seq<char>, nat, PrincipleCategory, EnforcementLevel)> {
    seq![
        ("harmlessness_1"@, "Avoid Harmful Content"@, 1000nat, PrincipleCategory::Harmlessness, EnforcementLevel::Block),
        ("helpfulness_1"@, "Provide Helpful Information"@, 800nat, PrincipleCategory::Helpfulness, EnforcementLevel::Warning),
        ("honesty_1"@, "Maintain Truthfulness"@, 900nat, PrincipleCategory::Honesty, EnforcementLevel::Warning),
    ]
}

/// The descriptions of the default principles.
pub open spec fn default_principle_descriptions() -> Seq<Seq<char>> {
    seq![
        "Content should not promote violence, hatred, or harm"@,
        "Content should be informative and constructive"@,
        "Content should be accurate and not misleading"@,
    ]
}

/// The fields of a principle that the defaults fix.
pub open spec fn principle_fields(p: ConstitutionalPrinciple) -> (Seq<char>, Seq<char>, nat, PrincipleCategory, EnforcementLevel) {
    (p.id@, p.name@, p.weight as nat, p.category, p.enforcement_level)
}

/// Holds content to harmlessness, helpfulness and honesty.
pub struct ConstitutionalAIAnalyzer {
    principles: Vec<ConstitutionalPrinciple>,
}

impl ConstitutionalAIAnalyzer {
    /// The principles, in order.
    pub closed spec fn principles(&self) -> Seq<ConstitutionalPrinciple> {
        self.principles@
    }

    /// Every principle weighs at most `MAX_WEIGHT`.
    pub open spec fn wf(&self) -> bool {
        forall|i: int| 0 <= i < self.principles().len() ==> (#[trigger] self.principles()[i]).weight <= MAX_WEIGHT
    }

    /// An analyzer with the three default principles.
    pub fn new() -> (r: ConstitutionalAIAnalyzer)
        ensures
            r.wf(),
            weights_of(r.principles()) == seq![1000nat, 800nat, 900nat],
            r.principles().map_values(|p: ConstitutionalPrinciple| principle_fields(p)) == default_principle_fields(),
            r.principles().map_values(|p: ConstitutionalPrinciple| p.description@) == default_principle_descriptions(),
    {
        ConstitutionalAIAnalyzer { principles: Self::default_principles() }
    }

    fn default_principles() -> (r: Vec<ConstitutionalPrinciple>)
        ensures
            weights_of(r@) == seq![1000nat, 800nat, 900nat],
            r@.map_values(|p: ConstitutionalPrinciple| principle_fields(p)) == default_principle_fields(),
            r@.map_values(|p: ConstitutionalPrinciple| p.description@) == default_principle_descriptions(),
            forall|i: int| 0 <= i < r@.len() ==> (#[trigger] r@[i]).weight <= MAX_WEIGHT,
    {
        let mut v: Vec<ConstitutionalPrinciple> = Vec::new();
        v.push(
            ConstitutionalPrinciple {
                id: String::from_str("harmlessness_1"),
                name: String::from_str("Avoid Harmful Content"),
                description: String::from_str("Content should not promote violence, hatred, or harm"),
                weight: 1000,
                category: PrincipleCategory::Harmlessness,
                enforcement_level: EnforcementLevel::Block,
            },
        );
        v.push(
            ConstitutionalPrinciple {
                id: String::from_str("helpfulness_1"),
                name: String::from_str("Provide Helpful Information"),
                description: String::from_str("Content should be informative and constructive"),
                weight: 800,
                category: PrincipleCategory::Helpfulness,
                enforcement_level: EnforcementLevel::Warning,
            },
        );
        v.push(
            ConstitutionalPrinciple {
                id: String::from_str("honesty_1"),
                name: String::from_str("Maintain Truthfulness"),
                description: String::from_str("Content should be accurate and not misleading"),
                weight: 900,
                category: PrincipleCategory::Honesty,
                enforcement_level: EnforcementLevel::Warning,
            },
        );
        assert(weights_of(v@) =~= seq![1000nat, 800nat, 900nat]);
        assert(v@.map_values(|p: ConstitutionalPrinciple| principle_fields(p)) =~= default_principle_fields());
        assert(v@.map_values(|p: ConstitutionalPrinciple| p.description@) =~= default_principle_descriptions());
        v
    }

    /// Scores the content against every principle and combines the scores by
    /// weight. Review is required below a compliance of 0.7 or on any critical
    /// violation.
    pub fn analyze_constitutional_compliance(&self, content: &str) -> (r: SafetyResult<ConstitutionalAnalysis>)
        requires
            self.wf(),
        ensures
            r matches Ok(a) && a.principle_scores@.len() == self.principles().len()
                && (forall|i: int| 0 <= i < a.principle_scores@.len() ==> (#[trigger] a.principle_scores@[i]).principle_id == self.principles()[i].id
                    && a.principle_scores@[i].score == PRINCIPLE_SCORE)
                && a.overall_compliance as nat == weighted_mean(a.principle_scores@, weights_of(self.principles()))
                && a.requires_human_review == (a.overall_compliance < REVIEW_THRESHOLD || has_critical_violation(a.principle_scores@))
                && a.recommendations@.len() == 3,
    {
        let mut principle_scores: Vec<PrincipleScore> = Vec::new();
        let mut total_weighted: u128 = 0;
        let mut total_weight: u128 = 0;
        let mut i: usize = 0;
        let ghost ws = weights_of(self.principles());
        while i < self.principles.len()
            invariant
                self.wf(),
                ws == weights_of(self.principles()),
                i <= self.principles@.len(),
                principle_scores@.len() == i,
                forall|k: int| 0 <= k < i ==> (#[trigger] principle_scores@[k]).principle_id == self.principles()[k].id
                    && principle_scores@[k].score == PRINCIPLE_SCORE,
                total_weighted as nat == weighted_sum(principle_scores@, ws.subrange(0, i as int)),
                total_weight as nat == weight_sum(ws.subrange(0, i as int)),
                total_weighted <= 8500 * total_weight,
                total_weight <= i * 1000,
            decreases self.principles@.len() - i,
        {
            let principle = &self.principles[i];
            let score = self.evaluate_single_principle(content, principle);
            let ghost before = principle_scores@;
            assert(ws.subrange(0, i + 1).drop_last() =~= ws.subrange(0, i as int));
            assert(ws.subrange(0, i + 1).last() == principle.weight as nat);
            assert(total_weighted + score.score as nat * principle.weight as nat <= 8500 * (total_weight + principle.weight as nat)) by (nonlinear_arith)
                requires score.score == 8500, total_weighted <= 8500 * total_weight;
            assert(8500 * (total_weight + principle.weight as nat) <= 8500 * ((i + 1) * 1000)) by (nonlinear_arith)
                requires total_weight <= i * 1000, principle.weight <= 1000;
            assert(8500 * ((i + 1) * 1000) < u128::MAX) by (nonlinear_arith)
                requires i < usize::MAX;
            total_weighted = total_weighted + score.score as u128 * principle.weight as u128;
            total_weight = total_weight + principle.weight as u128;
            principle_scores.push(score);
            assert(principle_scores@.drop_last() =~= before);
            i = i + 1;
        }
        assert(ws.subrange(0, i as int) =~= ws);
        let overall_compliance: u64 = if total_weight > 0 {
            assert(total_weighted / total_weight <= 8500) by (nonlinear_arith)
                requires total_weight > 0, total_weighted <= 8500 * total_weight;
            (total_weighted / total_weight) as u64
        } else {
            0
        };
        let recommendations = self.generate_recommendations(&principle_scores);
        let critical = any_critical(&principle_scores);
        let requires_human_review = overall_compliance < REVIEW_THRESHOLD || critical;
        Ok(
            ConstitutionalAnalysis {
                overall_compliance,
                principle_scores,
                recommendations,
                requires_human_review,
            },
        )
    }

    fn evaluate_single_principle(&self, content: &str, principle: &ConstitutionalPrinciple) -> (r: PrincipleScore)
        ensures
            r.principle_id == principle.id,
            r.score == PRINCIPLE_SCORE,
            r.confidence == PRINCIPLE_CONFIDENCE,
            r.violations@.len() == 0,
    {
        let score = self.calculate_principle_score(content, principle);
        let explanation = String::from_str("Evaluated content against principle: ").concat(
            principle.name.as_str(),
        );
        let violations = self.detect_violations(content, principle);
        PrincipleScore {
            principle_id: principle.id.clone(),
            score,
            confidence: PRINCIPLE_CONFIDENCE,
            explanation,
            violations,
        }
    }

    fn calculate_principle_score(&self, content: &str, principle: &ConstitutionalPrinciple) -> (r: u64)
        ensures
            r == PRINCIPLE_SCORE,
    {
        PRINCIPLE_SCORE
    }

    fn detect_violations(&self, content: &str, principle: &ConstitutionalPrinciple) -> (r: Vec<Violation>)
        ensures
            r@.len() == 0,
    {
        Vec::new()
    }

    fn generate_recommendations(&self, scores: &Vec<PrincipleScore>) -> (r: Vec<String>)
        ensures
            r@.len() == 3,
    {
        let mut v: Vec<String> = Vec::new();
        v.push(String::from_str("Consider reviewing content for potential bias"));
        v.push(String::from_str("Ensure factual accuracy of claims"));
        v.push(String::from_str("Review tone for helpfulness"));
        v
    }
}

/// Whether any score carries a critical violation.
fn any_critical(scores: &Vec<PrincipleScore>) -> (r: bool)
    ensures
        r == has_critical_violation(scores@),
{
    let mut i: usize = 0;
    while i < scores.len()
        invariant
            i <= scores@.len(),
            forall|a: int, b: int|
                0 <= a < i && 0 <= b < scores@[a].violations@.len() ==> (#[trigger] scores@[a].violations@[b]).severity != Severity::Critical,
        decreases scores@.len() - i,
    {
        let violations = &scores[i].violations;
        let mut j: usize = 0;
        while j < violations.len()
            invariant
                i < scores@.len(),
                violations@ == scores@[i as int].violations@,
                j <= violations@.len(),
                forall|b: int| 0 <= b < j ==> (#[trigger] violations@[b]).severity != Severity::Critical,
            decreases violations@.len() - j,
        {
            if violations[j].severity == Severity::Critical {
                assert(scores@[i as int].violations@[j as int].severity == Severity::Critical);
                return true;
            }
            j = j + 1;
        }
        i = i + 1;
    }
    false
}

} // verus!
