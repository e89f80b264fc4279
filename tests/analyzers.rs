use opensafe::constitutional::ConstitutionalAIAnalyzer;
use opensafe::interpretability::InterpretabilityAnalyzer;

#[test]
fn test_constitutional_analyzer() {
    let analyzer = ConstitutionalAIAnalyzer::new();
    let result = analyzer.analyze_constitutional_compliance("This is a test content.");
    assert!(result.is_ok());
}

#[test]
fn constitutional_compliance_is_weighted_mean() {
    let analyzer = ConstitutionalAIAnalyzer::new();
    let a = analyzer.analyze_constitutional_compliance("anything").unwrap();
    assert_eq!(a.principle_scores.len(), 3);
    assert_eq!(a.principle_scores[0].principle_id, "harmlessness_1");
    assert_eq!(a.principle_scores[2].principle_id, "honesty_1");
    assert_eq!(a.principle_scores[1].explanation, "Evaluated content against principle: Provide Helpful Information");
    assert_eq!(a.overall_compliance, 8500);
    assert!(!a.requires_human_review);
    assert_eq!(a.recommendations.len(), 3);
}

#[test]
fn concept_lookup_finds_first_concept() {
    let analyzer = InterpretabilityAnalyzer::new();
    assert_eq!(analyzer.concept_count(), 5);
    assert_eq!(analyzer.concept_for_token("ATTACKER"), Some(0));
    assert_eq!(analyzer.concept_name(0), "violence");
    assert_eq!(analyzer.concept_for_token("Helpful"), Some(3));
    assert_eq!(analyzer.concept_for_token("secrets"), Some(2));
    assert_eq!(analyzer.concept_for_token("table"), None);
    assert_eq!(analyzer.keywords(2).len(), 4);
    assert_eq!(analyzer.safety_concepts()[4], "honesty");
}
