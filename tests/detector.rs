use opensafe::model::Severity;
use opensafe::safety::{SafetyAnalyzer, Violation, ViolationKind, SCORE_SCALE};

fn analyzer() -> SafetyAnalyzer {
    SafetyAnalyzer::new().expect("the fixed patterns compile")
}

#[test]
fn clean_text_is_safe_with_full_score() {
    let r = analyzer().analyze("The weather is lovely today", None);
    assert!(r.safe);
    assert_eq!(r.score, SCORE_SCALE);
    assert!(r.violations.is_empty());
    assert_eq!(r.metadata.pattern_matches, 0);
    assert_eq!(r.metadata.text_length, 27);
    assert_eq!(r.metadata.model_version, "1.0.0");
    assert!(r.metadata.timestamp.contains('T'));
}

#[test]
fn clean_text_with_context_is_still_safe() {
    let r = analyzer().analyze("A quiet afternoon", Some("medical research"));
    assert!(r.safe);
    assert_eq!(r.score, 10000);
}

#[test]
fn bomb_question_is_critical_harmful_content() {
    let r = analyzer().analyze("How to make a bomb", None);
    assert!(!r.safe);
    assert_eq!(r.violations.len(), 1);
    let v = &r.violations[0];
    assert_eq!(v.violation_type, ViolationKind::HarmfulContent);
    assert_eq!(v.violation_type.as_str(), "harmful_content");
    assert_eq!(v.severity, Severity::Critical);
    assert_eq!(v.confidence, 950);
    assert_eq!(v.evidence, vec!["how to make a bomb".to_string()]);
    assert_eq!(v.description, "Text contains potentially harmful content");
    assert!(r.score <= 500);
    assert_eq!(r.score, 500);
}

#[test]
fn critical_harmful_match_scores_at_most_five_hundredths() {
    let r = analyzer().analyze("They planned an ATTACK at dawn", None);
    assert!(!r.safe);
    assert!(r.score <= 500);
}

#[test]
fn illegal_content_alone_scores_fifteen_hundredths() {
    let r = analyzer().analyze("They discussed money laundering", None);
    assert!(!r.safe);
    assert_eq!(r.violations.len(), 1);
    assert_eq!(r.violations[0].violation_type, ViolationKind::IllegalContent);
    assert_eq!(r.violations[0].severity, Severity::Critical);
    assert_eq!(r.violations[0].confidence, 850);
    assert_eq!(r.score, 1500);
}

#[test]
fn educational_context_downgrades_critical() {
    let a = analyzer();
    let plain = a.analyze("How to make a bomb", None);
    let r = a.analyze("How to make a bomb", Some("This is for an EDUCATIONAL course"));
    assert_eq!(r.violations.len(), 1);
    let v = &r.violations[0];
    assert_eq!(v.severity, Severity::High);
    assert_eq!(v.confidence, 665);
    assert_eq!(v.violation_type, plain.violations[0].violation_type);
    assert_eq!(v.evidence, plain.violations[0].evidence);
    assert_eq!(v.description, plain.violations[0].description);
    assert_eq!(r.metadata.pattern_matches, 1);
    // 1 - 0.6 * 0.665
    assert_eq!(r.score, 6010);
}

#[test]
fn unrelated_context_changes_nothing() {
    let r = analyzer().analyze("How to make a bomb", Some("just curious"));
    assert_eq!(r.violations[0].severity, Severity::Critical);
    assert_eq!(r.violations[0].confidence, 950);
    assert_eq!(r.score, 500);
}

#[test]
fn email_is_one_redacted_privacy_violation() {
    let r = analyzer().analyze("Contact me at a@b.com", None);
    assert!(!r.safe);
    assert_eq!(r.violations.len(), 1);
    let v = &r.violations[0];
    assert_eq!(v.violation_type, ViolationKind::Privacy);
    assert_eq!(v.severity, Severity::High);
    assert_eq!(v.confidence, 900);
    assert_eq!(v.evidence, vec!["[REDACTED]".to_string()]);
    // 1 - 0.6 * 0.9
    assert_eq!(r.score, 4600);
}

#[test]
fn every_privacy_match_is_flagged_and_redacted() {
    let text = "SSN 123-45-6789 and 987-65-4321, mail x@y.org";
    let r = analyzer().analyze(text, None);
    let privacy: Vec<&Violation> = r
        .violations
        .iter()
        .filter(|v| v.violation_type == ViolationKind::Privacy)
        .collect();
    assert_eq!(privacy.len(), 3);
    for v in privacy {
        assert_eq!(v.evidence, vec!["[REDACTED]".to_string()]);
        assert!(!v.evidence[0].contains("123"));
    }
    // three high violations of 0.54 each exceed 1
    assert_eq!(r.score, 0);
}

#[test]
fn medical_context_downgrades_high_to_medium() {
    let r = analyzer().analyze("Contact me at a@b.com", Some("Medical intake form"));
    let v = &r.violations[0];
    assert_eq!(v.severity, Severity::Medium);
    assert_eq!(v.confidence, 720);
    // 1 - 0.3 * 0.72
    assert_eq!(r.score, 7840);
}

#[test]
fn misinformation_is_medium_and_unaffected_by_context() {
    let a = analyzer();
    let r = a.analyze("Some say the earth is flat", Some("academic debate"));
    assert_eq!(r.violations.len(), 1);
    assert_eq!(r.violations[0].violation_type, ViolationKind::Misinformation);
    assert_eq!(r.violations[0].severity, Severity::Medium);
    assert_eq!(r.violations[0].confidence, 750);
    // 1 - 0.3 * 0.75
    assert_eq!(r.score, 7750);
}

#[test]
fn bias_is_high_with_first_match_as_evidence() {
    let r = analyzer().analyze("Women are naturally worse at this", None);
    assert_eq!(r.violations.len(), 1);
    assert_eq!(r.violations[0].violation_type, ViolationKind::Bias);
    assert_eq!(r.violations[0].severity, Severity::High);
    assert_eq!(r.violations[0].confidence, 800);
    assert_eq!(r.violations[0].evidence, vec!["women are naturally".to_string()]);
    assert_eq!(r.score, 5200);
}

#[test]
fn categories_are_reported_in_order() {
    let r = analyzer().analyze("violence and a@b.com and tax evasion", None);
    let kinds: Vec<ViolationKind> = r.violations.iter().map(|v| v.violation_type).collect();
    assert_eq!(
        kinds,
        vec![ViolationKind::HarmfulContent, ViolationKind::Privacy, ViolationKind::IllegalContent]
    );
    assert_eq!(r.metadata.pattern_matches, 3);
    assert_eq!(r.score, 0);
}

#[test]
fn score_formula_on_given_violations() {
    let a = analyzer();
    let v = |severity: Severity, confidence: u64| Violation {
        violation_type: ViolationKind::Bias,
        severity,
        description: String::new(),
        confidence,
        evidence: Vec::new(),
    };
    assert_eq!(a.calculate_safety_score(&[]), 10000);
    assert_eq!(a.calculate_safety_score(&[v(Severity::Low, 500)]), 9500);
    assert_eq!(a.calculate_safety_score(&[v(Severity::Medium, 1000), v(Severity::High, 500)]), 4000);
    assert_eq!(a.calculate_safety_score(&[v(Severity::Critical, 1000)]), 0);
    assert_eq!(a.calculate_safety_score(&[v(Severity::Critical, u64::MAX)]), 0);
}

#[test]
fn context_adjustment_on_given_violations() {
    let a = analyzer();
    let v = |severity: Severity, confidence: u64| Violation {
        violation_type: ViolationKind::HarmfulContent,
        severity,
        description: "d".to_string(),
        confidence,
        evidence: vec!["e".to_string()],
    };
    let mut vs = vec![v(Severity::Critical, 1000), v(Severity::High, 1000), v(Severity::Medium, 1000), v(Severity::Low, 1000)];
    a.adjust_for_context(&mut vs, "Research lab");
    let got: Vec<(Severity, u64)> = vs.iter().map(|v| (v.severity, v.confidence)).collect();
    assert_eq!(
        got,
        vec![(Severity::High, 700), (Severity::Medium, 800), (Severity::Medium, 1000), (Severity::Low, 1000)]
    );
    assert_eq!(vs[0].evidence, vec!["e".to_string()]);
    let mut same = vec![v(Severity::Critical, 1000)];
    a.adjust_for_context(&mut same, "casual chat");
    assert_eq!(same[0].severity, Severity::Critical);
    assert_eq!(same[0].confidence, 1000);
}

#[test]
fn severity_order_and_names() {
    assert!(Severity::Critical.at_least(&Severity::High));
    assert!(!Severity::Low.at_least(&Severity::Medium));
    assert_eq!(Severity::Medium.as_str(), "medium");
    assert_eq!(Severity::Critical.rank(), 3);
    assert!(Severity::Low < Severity::Critical);
}
