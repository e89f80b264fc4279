//! The data model shared by the analyzers: severities, flags, scores, errors
//! and configuration. Fractions are fixed-point integers: a score or a
//! confidence is held in ten-thousandths unless a field says otherwise.

use vstd::prelude::*;

verus! {

/// Ordered violation intensity: `Low < Medium < High < Critical`.
#[derive(Clone, Copy, Debug, PartialEq, Eq, PartialOrd, Ord, Hash, Structural)]
pub enum Severity {
    Low,
    Medium,
    High,
    Critical,
}

/// The position of a severity in the order `Low < Medium < High < Critical`.
pub open spec fn severity_rank(s: Severity) -> nat {
    match s {
        Severity::Low => 0,
        Severity::Medium => 1,
        Severity::High => 2,
        Severity::Critical => 3,
    }
}

impl Severity {
    /// The position of this severity in the order, from 0 (`Low`) to 3 (`Critical`).
    pub fn rank(&self) -> (r: u8)
        ensures
            r as nat == severity_rank(*self),
    {
        match self {
            Severity::Low => 0,
            Severity::Medium => 1,
            Severity::High => 2,
            Severity::Critical => 3,
        }
    }

    /// Whether this severity is at least `other` in the order.
    pub fn at_least(&self, other: &Severity) -> (r: bool)
        ensures
            r == (severity_rank(*self) >= severity_rank(*other)),
    {
        self.rank() >= other.rank()
    }

    /// The lowercase name: "low", "medium", "high" or "critical".
    pub fn as_str(&self) -> (r: &'static str)
        ensures
            r@ == severity_name(*self),
    {
        match self {
            Severity::Low => "low",
            Severity::Medium => "medium",
            Severity::High => "high",
            Severity::Critical => "critical",
        }
    }
}

/// The lowercase name of a severity.
pub open spec fn severity_name(s: Severity) -> Seq<char> {
    match s {
        Severity::Low => "low"@,
        Severity::Medium => "medium"@,
        Severity::High => "high"@,
        Severity::Critical => "critical"@,
    }
}


/// The errors an analysis can end in.
#[derive(Clone, Debug)]
pub enum SafetyAnalysisError {
    InvalidContent(String),
    ProcessingTimeout,
    ResourceExhaustion,
    ModelLoadError(String),
    ConcurrencyError,
    SerializationError(String),
}

impl SafetyAnalysisError {
    /// A human-readable message, such as "Processing timeout exceeded".
    pub fn message(&self) -> (r: String)
        ensures
            r@ == error_message(*self),
    {
        match self {
            SafetyAnalysisError::InvalidContent(msg) => String::from_str("Invalid content: ").concat(
                msg.as_str(),
            ),
            SafetyAnalysisError::ProcessingTimeout => String::from_str("Processing timeout exceeded"),
            SafetyAnalysisError::ResourceExhaustion => String::from_str("System resources exhausted"),
            SafetyAnalysisError::ModelLoadError(msg) => String::from_str(
                "Model loading error: ",
            ).concat(msg.as_str()),
            SafetyAnalysisError::ConcurrencyError => String::from_str("Concurrency error occurred"),
            SafetyAnalysisError::SerializationError(msg) => String::from_str(
                "Serialization error: ",
            ).concat(msg.as_str()),
        }
    }
}

/// The message of each error.
pub open spec fn error_message(e: SafetyAnalysisError) -> Seq<char> {
    match e {
        SafetyAnalysisError::InvalidContent(msg) => "Invalid content: "@ + msg@,
        SafetyAnalysisError::ProcessingTimeout => "Processing timeout exceeded"@,
        SafetyAnalysisError::ResourceExhaustion => "System resources exhausted"@,
        SafetyAnalysisError::ModelLoadError(msg) => "Model loading error: "@ + msg@,
        SafetyAnalysisError::ConcurrencyError => "Concurrency error occurred"@,
        SafetyAnalysisError::SerializationError(msg) => "Serialization error: "@ + msg@,
    }
}

/// The result of a fallible analysis step.
pub type SafetyResult<T> = Result<T, SafetyAnalysisError>;

/// The overall result of one analysis by the registered models.
#[derive(Clone, Debug)]
pub struct SafetyScore {
    /// The mean of the category scores, in ten-thousandths.
    pub overall_score: u64,
    /// The mean of the category confidences, in ten-thousandths.
    pub confidence: u64,
    /// Category name to score; each name appears once.
    pub categories: Vec<(String, CategoryScore)>,
    pub flags: Vec<SafetyFlag>,
    pub processing_time_ms: u64,
    pub metadata: AnalysisMetadata,
}

/// The score of one category.
#[derive(Clone, Debug)]
pub struct CategoryScore {
    /// In ten-thousandths.
    pub score: u64,
    /// In ten-thousandths.
    pub confidence: u64,
    /// Subcategory name to score in ten-thousandths.
    pub subcategory_scores: Vec<(String, u64)>,
    pub evidence: Vec<String>,
    pub mitigation_suggestions: Vec<String>,
}

/// One finding of a model.
#[derive(Clone, Debug)]
pub struct SafetyFlag {
    pub flag_type: FlagType,
    pub severity: Severity,
    pub message: String,
    pub location: TextLocation,
    pub remediation: String,
    pub auto_fixable: bool,
}

#[derive(Clone, Copy, Debug, PartialEq, Eq, Structural)]
pub enum FlagType {
    ContentViolation,
    BiasDetected,
    ToxicityFound,
    PrivacyIssue,
    SecurityConcern,
    EthicalIssue,
}

/// A span of the analysed text.
#[derive(Clone, Copy, Debug, PartialEq, Eq, Structural)]
pub struct TextLocation {
    pub start: usize,
    pub end: usize,
    pub line: Option<u32>,
    pub column: Option<u32>,
}

/// How an analysis was produced.
#[derive(Clone, Debug)]
pub struct AnalysisMetadata {
    pub analyzer_version: String,
    /// Model name to version.
    pub model_versions: Vec<(String, String)>,
    pub processing_pipeline: Vec<String>,
    pub system_info: SystemInfo,
    /// Seconds since the Unix epoch.
    pub timestamp: u64,
}

/// The machine an analysis ran on.
#[derive(Clone, Debug)]
pub struct SystemInfo {
    pub cpu_cores: usize,
    pub memory_mb: usize,
    pub platform: String,
    pub rust_version: String,
}

impl SystemInfo {
    /// A field-for-field copy.
    pub fn copy(&self) -> (r: SystemInfo)
        ensures
            r == *self,
    {
        SystemInfo {
            cpu_cores: self.cpu_cores,
            memory_mb: self.memory_mb,
            platform: self.platform.clone(),
            rust_version: self.rust_version.clone(),
        }
    }
}

/// A principle that content is held to.
#[derive(Clone, Debug)]
pub struct ConstitutionalPrinciple {
    pub id: String,
    pub name: String,
    pub description: String,
    /// In thousandths.
    pub weight: u64,
    pub category: PrincipleCategory,
    pub enforcement_level: EnforcementLevel,
}

#[derive(Clone, Copy, Debug, PartialEq, Eq, Hash, Structural)]
pub enum PrincipleCategory {
    Harmlessness,
    Helpfulness,
    Honesty,
    Transparency,
    Fairness,
    Privacy,
}

#[derive(Clone, Copy, Debug, PartialEq, Eq, Structural)]
pub enum EnforcementLevel {
    Warning,
    Block,
    Rewrite,
    Escalate,
}

/// How well content meets one principle.
#[derive(Clone, Debug)]
pub struct PrincipleScore {
    pub principle_id: String,
    /// In ten-thousandths.
    pub score: u64,
    /// In ten-thousandths.
    pub confidence: u64,
    pub explanation: String,
    pub violations: Vec<Violation>,
}

/// A breach of a principle at some place in the text.
#[derive(Clone, Debug)]
pub struct Violation {
    pub location: TextLocation,
    pub severity: Severity,
    pub description: String,
    pub suggested_fix: Option<String>,
}

/// The result of holding content to every principle.
#[derive(Clone, Debug)]
pub struct ConstitutionalAnalysis {
    /// The weighted mean of the principle scores, in ten-thousandths.
    pub overall_compliance: u64,
    pub principle_scores: Vec<PrincipleScore>,
    pub recommendations: Vec<String>,
    pub requires_human_review: bool,
}

/// The result of a bias check.
#[derive(Clone, Debug)]
pub struct BiasAnalysis {
    /// In ten-thousandths.
    pub overall_bias_score: u64,
    /// Bias type to score in ten-thousandths; each type appears once.
    pub bias_types: Vec<(BiasType, u64)>,
    pub evidence: Vec<BiasEvidence>,
    pub mitigation_strategies: Vec<String>,
}

#[derive(Clone, Copy, Debug, PartialEq, Eq, Hash, Structural)]
pub enum BiasType {
    Gender,
    Racial,
    Age,
    Religious,
    Cultural,
    Socioeconomic,
    Political,
    Disability,
}

#[derive(Clone, Copy, Debug, PartialEq, Eq, Structural)]
pub enum BiasCategory {
    Implicit,
    Explicit,
    Systemic,
    Cognitive,
}

/// One piece of evidence of bias.
#[derive(Clone, Debug)]
pub struct BiasEvidence {
    pub bias_type: BiasType,
    /// In ten-thousandths.
    pub confidence: u64,
    pub location: TextLocation,
    pub context: String,
    pub explanation: String,
}

/// The result of a toxicity check.
#[derive(Clone, Debug)]
pub struct ToxicityScore {
    /// In ten-thousandths.
    pub overall_toxicity: u64,
    /// Toxicity category to score in ten-thousandths; each category appears once.
    pub toxicity_categories: Vec<(ToxicityCategory, u64)>,
    pub evidence_snippets: Vec<String>,
    /// Lower bound of the confidence interval, in ten-thousandths.
    pub confidence_low: u64,
    /// Upper bound of the confidence interval, in ten-thousandths.
    pub confidence_high: u64,
}

#[derive(Clone, Copy, Debug, PartialEq, Eq, Hash, Structural)]
pub enum ToxicityCategory {
    Harassment,
    Hate,
    Violence,
    SelfHarm,
    Sexual,
    Dangerous,
}

/// What an analyzer reports about itself.
#[derive(Clone, Debug)]
pub struct AnalyzerInfo {
    pub name: String,
    pub version: String,
    pub capabilities: Vec<String>,
    pub supported_languages: Vec<String>,
    pub performance_metrics: PerformanceMetrics,
}

/// Running measurements of an analyzer. Only the average latency is kept up
/// to date; the other fields are reserved.
#[derive(Clone, Copy, Debug, PartialEq, Eq, Structural)]
pub struct PerformanceMetrics {
    /// Whole milliseconds.
    pub avg_processing_time_ms: u64,
    pub throughput_per_second: u64,
    pub memory_usage_mb: u64,
    /// In ten-thousandths.
    pub accuracy_percentage: u64,
    /// In ten-thousandths.
    pub false_positive_rate: u64,
    /// In ten-thousandths.
    pub false_negative_rate: u64,
}

impl Default for PerformanceMetrics {
    fn default() -> (r: PerformanceMetrics)
        ensures
            r == (PerformanceMetrics {
                avg_processing_time_ms: 0,
                throughput_per_second: 0,
                memory_usage_mb: 0,
                accuracy_percentage: 0,
                false_positive_rate: 0,
                false_negative_rate: 0,
            }),
    {
        PerformanceMetrics {
            avg_processing_time_ms: 0,
            throughput_per_second: 0,
            memory_usage_mb: 0,
            accuracy_percentage: 0,
            false_positive_rate: 0,
            false_negative_rate: 0,
        }
    }
}

/// What a model reports about itself.
#[derive(Clone, Debug)]
pub struct ModelInfo {
    pub name: String,
    pub version: String,
    pub model_type: String,
    pub capabilities: Vec<String>,
}

/// Settings of an analysis engine, fixed when it is built.
#[derive(Clone, Debug)]
pub struct AnalyzerConfig {
    /// Configured but not enforced: the cache never evicts.
    pub cache_size: usize,
    pub thread_count: usize,
    pub timeout_ms: u64,
    /// Informational only.
    pub memory_limit_mb: usize,
    pub enable_parallel_processing: bool,
    /// Informational only; in ten-thousandths.
    pub quality_threshold: u64,
}

/// Relies on `num_cpus::get`: the number of logical cores available, which
/// its documentation promises is at least 1.
#[verifier::external_body]
pub(crate) fn cpu_count() -> (r: usize)
    ensures
        r >= 1,
{
    num_cpus::get()
}

impl Default for AnalyzerConfig {
    /// A cache of 10000 entries, one worker per available core, a 30 s timeout,
    /// 512 MB, parallel batches and a quality threshold of 0.85.
    fn default() -> (r: AnalyzerConfig)
        ensures
            r.cache_size == 10000,
            r.thread_count >= 1,
            r.timeout_ms == 30000,
            r.memory_limit_mb == 512,
            r.enable_parallel_processing,
            r.quality_threshold == 8500,
    {
        AnalyzerConfig {
            cache_size: 10000,
            thread_count: cpu_count(),
            timeout_ms: 30000,
            memory_limit_mb: 512,
            enable_parallel_processing: true,
            quality_threshold: 8500,
        }
    }
}

} // verus!
