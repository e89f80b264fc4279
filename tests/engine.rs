use opensafe::engine::{
    advanced_analyzer_info, begin_analysis, create_metadata, finish_analysis, merge_model_results, perform_analysis,
    reassemble_batch, resolve_wait, update_metrics, AnalysisModel, ModelOutput, ModelRegistry,
    AnalysisStart, ResultCache,
};
use opensafe::model::{
    AnalyzerConfig, CategoryScore, FlagType, ModelInfo, PerformanceMetrics, SafetyAnalysisError,
    SafetyFlag, SafetyResult, SafetyScore, Severity, TextLocation,
};

fn category(score: u64, confidence: u64) -> CategoryScore {
    CategoryScore {
        score,
        confidence,
        subcategory_scores: Vec::new(),
        evidence: Vec::new(),
        mitigation_suggestions: Vec::new(),
    }
}

fn flag(message: &str) -> SafetyFlag {
    SafetyFlag {
        flag_type: FlagType::ContentViolation,
        severity: Severity::High,
        message: message.to_string(),
        location: TextLocation { start: 0, end: 1, line: None, column: None },
        remediation: String::new(),
        auto_fixable: false,
    }
}

fn score_with(categories: Vec<(&str, CategoryScore)>, flags: Vec<SafetyFlag>, overall: u64) -> SafetyScore {
    SafetyScore {
        overall_score: overall,
        confidence: 0,
        categories: categories.into_iter().map(|(k, v)| (k.to_string(), v)).collect(),
        flags,
        processing_time_ms: 0,
        metadata: create_metadata("test"),
    }
}

struct FixedModel {
    ready: bool,
    fail: bool,
    harm: u64,
}

impl AnalysisModel for FixedModel {
    fn analyze(&self, _content: &str) -> SafetyResult<SafetyScore> {
        if self.fail {
            return Err(SafetyAnalysisError::InvalidContent("refused".to_string()));
        }
        Ok(score_with(vec![("harm", category(self.harm, 8000))], vec![flag("f")], self.harm))
    }

    fn get_model_info(&self) -> ModelInfo {
        ModelInfo {
            name: "fixed".to_string(),
            version: "1".to_string(),
            model_type: "rule".to_string(),
            capabilities: Vec::new(),
        }
    }

    fn is_ready(&self) -> bool {
        self.ready
    }
}

#[test]
fn cache_returns_identical_stored_score() {
    let mut cache: ResultCache<SafetyScore> = ResultCache::new();
    assert!(cache.lookup("some text").is_none());
    cache.store("some text", score_with(vec![("a", category(7000, 9000))], vec![flag("x")], 7000));
    let first = cache.lookup("some text").expect("stored").clone();
    let second = cache.lookup("some text").expect("stored").clone();
    assert_eq!(first.overall_score, second.overall_score);
    assert_eq!(first.categories[0].0, second.categories[0].0);
    assert_eq!(first.flags[0].message, second.flags[0].message);
    assert_eq!(first.overall_score, 7000);
    assert!(cache.lookup("other text").is_none());
    assert_eq!(cache.len(), 1);
}

#[test]
fn cache_store_of_same_text_replaces() {
    let mut cache: ResultCache<u64> = ResultCache::new();
    cache.store("t", 1);
    cache.store("t", 2);
    cache.store("u", 3);
    assert_eq!(cache.len(), 2);
    assert_eq!(cache.lookup("t"), Some(&2));
    assert_eq!(cache.lookup("u"), Some(&3));
}

#[test]
fn batch_keeps_input_order_when_last_arrives_first() {
    let a = score_with(vec![], vec![], 1000);
    let b = score_with(vec![], vec![], 2000);
    let c = score_with(vec![], vec![], 3000);
    let tagged = vec![(0, Ok(a)), (1, Ok(b)), (2, Ok(c))];
    let mut arrived = Vec::new();
    let mut tagged = tagged;
    arrived.push(tagged.remove(2));
    arrived.push(tagged.remove(0));
    arrived.push(tagged.remove(0));
    let scores = reassemble_batch(3, arrived).expect("all delivered");
    let order: Vec<u64> = scores.iter().map(|s| s.overall_score).collect();
    assert_eq!(order, vec![1000, 2000, 3000]);
}

#[test]
fn batch_with_missing_slot_is_concurrency_error() {
    let tagged = vec![(0, Ok(score_with(vec![], vec![], 1)))];
    let r = reassemble_batch(2, tagged);
    assert!(matches!(r, Err(SafetyAnalysisError::ConcurrencyError)));
}

#[test]
fn batch_fails_with_first_failing_item() {
    let tagged = vec![
        (2, Err(SafetyAnalysisError::ProcessingTimeout)),
        (0, Ok(score_with(vec![], vec![], 1))),
        (1, Err(SafetyAnalysisError::ResourceExhaustion)),
    ];
    let r = reassemble_batch(3, tagged);
    assert!(matches!(r, Err(SafetyAnalysisError::ResourceExhaustion)));
}

#[test]
fn empty_batch_is_empty() {
    let r = reassemble_batch(0, Vec::new()).expect("nothing to wait for");
    assert!(r.is_empty());
}

#[test]
fn timeout_is_processing_timeout() {
    let r = resolve_wait(None);
    assert!(matches!(r, Err(SafetyAnalysisError::ProcessingTimeout)));
    let ok = resolve_wait(Some(Ok(score_with(vec![], vec![], 42)))).expect("delivered");
    assert_eq!(ok.overall_score, 42);
    let err = resolve_wait(Some(Err(SafetyAnalysisError::ConcurrencyError)));
    assert!(matches!(err, Err(SafetyAnalysisError::ConcurrencyError)));
}

#[test]
fn metrics_keep_a_running_average() {
    let mut m = PerformanceMetrics::default();
    update_metrics(&mut m, 100);
    assert_eq!(m.avg_processing_time_ms, 50);
    update_metrics(&mut m, 51);
    assert_eq!(m.avg_processing_time_ms, 50);
    update_metrics(&mut m, u64::MAX);
    assert_eq!(m.avg_processing_time_ms, 9223372036854775832);
    assert_eq!(m.throughput_per_second, 0);
}

#[test]
fn merge_namespaces_categories_and_averages() {
    let outputs = vec![
        ModelOutput {
            model_name: "alpha".to_string(),
            result: score_with(vec![("harm", category(2000, 6000)), ("bias", category(4000, 8000))], vec![flag("a")], 0),
            elapsed_ms: 5,
        },
        ModelOutput {
            model_name: "beta".to_string(),
            result: score_with(vec![("harm", category(9000, 7000))], vec![flag("b"), flag("c")], 0),
            elapsed_ms: 7,
        },
    ];
    let s = merge_model_results(outputs, create_metadata("linux"));
    let keys: Vec<&str> = s.categories.iter().map(|(k, _)| k.as_str()).collect();
    assert_eq!(keys, vec!["alpha_harm", "alpha_bias", "beta_harm"]);
    assert_eq!(s.overall_score, 5000);
    assert_eq!(s.confidence, 7000);
    let messages: Vec<&str> = s.flags.iter().map(|f| f.message.as_str()).collect();
    assert_eq!(messages, vec!["a", "b", "c"]);
    assert_eq!(s.processing_time_ms, 12);
    assert_eq!(s.metadata.processing_pipeline, vec!["preprocessing", "tokenization", "analysis", "scoring", "postprocessing"]);
    assert_eq!(s.metadata.system_info.platform, "linux");
    assert!(s.metadata.system_info.cpu_cores >= 1);
}

#[test]
fn merge_of_nothing_scores_zero() {
    let s = merge_model_results(Vec::new(), create_metadata("linux"));
    assert_eq!(s.overall_score, 0);
    assert_eq!(s.confidence, 0);
    assert!(s.categories.is_empty());
}

#[test]
fn merge_replaces_colliding_names() {
    let outputs = vec![
        ModelOutput { model_name: "a_b".to_string(), result: score_with(vec![("c", category(1000, 0))], vec![], 0), elapsed_ms: u64::MAX },
        ModelOutput { model_name: "a".to_string(), result: score_with(vec![("b_c", category(3000, 0))], vec![], 0), elapsed_ms: 1 },
    ];
    let s = merge_model_results(outputs, create_metadata("linux"));
    assert_eq!(s.categories.len(), 1);
    assert_eq!(s.categories[0].0, "a_b_c");
    assert_eq!(s.categories[0].1.score, 3000);
    assert_eq!(s.overall_score, 3000);
    assert_eq!(s.processing_time_ms, u64::MAX);
}

#[test]
fn empty_registry_is_model_load_error() {
    let registry: ModelRegistry<FixedModel> = ModelRegistry::new();
    let r = perform_analysis("text", &registry, "linux");
    match r {
        Err(SafetyAnalysisError::ModelLoadError(msg)) => assert_eq!(msg, "No models available"),
        _ => panic!("expected a model load error"),
    }
}

#[test]
fn registry_queries_ready_models_in_order() {
    let mut registry = ModelRegistry::new();
    registry.register("first".to_string(), FixedModel { ready: true, fail: false, harm: 2000 });
    registry.register("idle".to_string(), FixedModel { ready: false, fail: true, harm: 0 });
    registry.register("second".to_string(), FixedModel { ready: true, fail: false, harm: 6000 });
    assert_eq!(registry.len(), 3);
    let s = perform_analysis("text", &registry, "linux").expect("two ready models");
    let keys: Vec<&str> = s.categories.iter().map(|(k, _)| k.as_str()).collect();
    assert_eq!(keys, vec!["first_harm", "second_harm"]);
    assert_eq!(s.overall_score, 4000);
    assert_eq!(s.confidence, 8000);
    assert_eq!(s.flags.len(), 2);
}

#[test]
fn registering_a_name_again_replaces_the_model() {
    let mut registry = ModelRegistry::new();
    registry.register("m".to_string(), FixedModel { ready: true, fail: true, harm: 0 });
    registry.register("m".to_string(), FixedModel { ready: true, fail: false, harm: 1000 });
    assert_eq!(registry.len(), 1);
    let s = perform_analysis("text", &registry, "linux").expect("replaced model succeeds");
    assert_eq!(s.overall_score, 1000);
}

#[test]
fn failing_model_fails_the_analysis() {
    let mut registry = ModelRegistry::new();
    registry.register("bad".to_string(), FixedModel { ready: true, fail: true, harm: 0 });
    let r = perform_analysis("text", &registry, "linux");
    assert!(matches!(r, Err(SafetyAnalysisError::InvalidContent(_))));
}

#[test]
fn only_idle_models_is_model_load_error() {
    let mut registry = ModelRegistry::new();
    registry.register("idle".to_string(), FixedModel { ready: false, fail: true, harm: 0 });
    let r = perform_analysis("text", &registry, "linux");
    match r {
        Err(SafetyAnalysisError::ModelLoadError(msg)) => assert_eq!(msg, "No models available"),
        _ => panic!("expected a model load error"),
    }
}

#[test]
fn first_failure_stops_the_consultation() {
    let mut registry = ModelRegistry::new();
    registry.register("good".to_string(), FixedModel { ready: true, fail: false, harm: 1000 });
    registry.register("bad".to_string(), FixedModel { ready: true, fail: true, harm: 0 });
    registry.register("later".to_string(), FixedModel { ready: true, fail: false, harm: 2000 });
    let r = perform_analysis("text", &registry, "linux");
    assert!(matches!(r, Err(SafetyAnalysisError::InvalidContent(_))));
}

#[test]
fn error_messages() {
    assert_eq!(SafetyAnalysisError::ProcessingTimeout.message(), "Processing timeout exceeded");
    assert_eq!(SafetyAnalysisError::ModelLoadError("x".to_string()).message(), "Model loading error: x");
    assert_eq!(SafetyAnalysisError::InvalidContent("y".to_string()).message(), "Invalid content: y");
    assert_eq!(SafetyAnalysisError::ResourceExhaustion.message(), "System resources exhausted");
    assert_eq!(SafetyAnalysisError::ConcurrencyError.message(), "Concurrency error occurred");
    assert_eq!(SafetyAnalysisError::SerializationError("z".to_string()).message(), "Serialization error: z");
}

#[test]
fn default_config() {
    let c = AnalyzerConfig::default();
    assert_eq!(c.cache_size, 10000);
    assert!(c.thread_count >= 1);
    assert_eq!(c.timeout_ms, 30000);
    assert_eq!(c.memory_limit_mb, 512);
    assert!(c.enable_parallel_processing);
    assert_eq!(c.quality_threshold, 8500);
}

#[test]
fn analyzer_info_names_the_engine() {
    let info = advanced_analyzer_info(PerformanceMetrics::default());
    assert_eq!(info.name, "AdvancedSafetyAnalyzer");
    assert_eq!(info.capabilities.len(), 5);
    assert_eq!(info.supported_languages, vec!["english", "spanish", "french", "german"]);
}

#[test]
fn timeout_leaves_cache_and_metrics_alone() {
    let mut cache: ResultCache<SafetyScore> = ResultCache::new();
    let mut metrics = PerformanceMetrics::default();
    let r = finish_analysis(&mut cache, &mut metrics, "slow text", None, 500);
    assert!(matches!(r, Err(SafetyAnalysisError::ProcessingTimeout)));
    assert_eq!(cache.len(), 0);
    assert_eq!(metrics.avg_processing_time_ms, 0);
    let r = finish_analysis(&mut cache, &mut metrics, "slow text", Some(Err(SafetyAnalysisError::ConcurrencyError)), 500);
    assert!(matches!(r, Err(SafetyAnalysisError::ConcurrencyError)));
    assert_eq!(cache.len(), 0);
}

#[test]
fn completion_after_timeout_is_cached() {
    let mut cache: ResultCache<SafetyScore> = ResultCache::new();
    let mut metrics = PerformanceMetrics::default();
    let _ = finish_analysis(&mut cache, &mut metrics, "slow text", None, 500);
    let r = finish_analysis(&mut cache, &mut metrics, "slow text", Some(Ok(score_with(vec![], vec![], 4321))), 80);
    assert!(r.is_ok());
    assert_eq!(metrics.avg_processing_time_ms, 40);
    assert_eq!(cache.lookup("slow text").map(|s| s.overall_score), Some(4321));
    assert!(cache.lookup("other").is_none());
}

#[test]
fn cache_hit_skips_dispatch() {
    let mut cache: ResultCache<u64> = ResultCache::new();
    assert!(matches!(begin_analysis(&cache, "text"), AnalysisStart::Dispatch));
    cache.store("text", 9);
    assert!(matches!(begin_analysis(&cache, "text"), AnalysisStart::Cached(&9)));
    assert!(matches!(begin_analysis(&cache, "other"), AnalysisStart::Dispatch));
}
