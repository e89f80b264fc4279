//! The pure parts of the analysis engine: the result cache keyed by content
//! fingerprint, the model registry, merging of per-model results, latency
//! metrics, the outcome of a bounded wait, and batch reassembly.

use vstd::prelude::*;
use std::collections::HashMap;
use std::hash::BuildHasher;
use crate::clock::{elapsed_ms, start_timer, unix_time_secs};
use crate::model::{
    AnalysisMetadata, AnalyzerInfo, BiasAnalysis, BiasCategory, CategoryScore,
    ConstitutionalAnalysis, ConstitutionalPrinciple, ModelInfo, PerformanceMetrics,
    PrincipleScore, SafetyAnalysisError, SafetyFlag, SafetyResult, SafetyScore, SystemInfo,
    ToxicityScore,
};

verus! {

broadcast use vstd::std_specs::hash::group_hash_axioms;

/// The fingerprint of a text: a hash of its characters.
pub uninterp spec fn content_fingerprint(text: Seq<char>) -> u64;

/// Relies on `BuildHasher::hash_one` with the unkeyed `DefaultHasher`: the
/// value depends on the text alone.
#[verifier::external_body]
pub(crate) fn calculate_hash(content: &str) -> (r: u64)
    ensures
        r == content_fingerprint(content@),
{
    std::hash::BuildHasherDefault::<std::collections::hash_map::DefaultHasher>::default().hash_one(
        content,
    )
}

/// Previously computed results, one per content fingerprint. Entries are never
/// evicted.
pub struct ResultCache<V> {
    entries: HashMap<u64, V>,
}

impl<V> View for ResultCache<V> {
    type V = Map<u64, V>;

    closed spec fn view(&self) -> Map<u64, V> {
        self.entries@
    }
}

impl<V> ResultCache<V> {
    /// An empty cache.
    pub fn new() -> (r: ResultCache<V>)
        ensures
            r@ == Map::<u64, V>::empty(),
    {
        ResultCache { entries: HashMap::new() }
    }

    /// The entry computed from `text`, if there is one.
    pub fn lookup(&self, text: &str) -> (r: Option<&V>)
        ensures
            match r {
                Some(v) => self@.contains_key(content_fingerprint(text@)) && *v == self@[content_fingerprint(text@)],
                None => !self@.contains_key(content_fingerprint(text@)),
            },
    {
        let key = calculate_hash(text);
        self.entries.get(&key)
    }

    /// Records `value` as the result computed from `text`, replacing any earlier one.
    pub fn store(&mut self, text: &str, value: V)
        ensures
            final(self)@ == old(self)@.insert(content_fingerprint(text@), value),
    {
        let key = calculate_hash(text);
        self.entries.insert(key, value);
    }

    /// The number of entries.
    pub fn len(&self) -> (r: usize)
        ensures
            r as nat == self@.len(),
    {
        self.entries.len()
    }
}

/// How a request starts: answered from the cache, or dispatched to a worker.
pub enum AnalysisStart<'a, V> {
    Cached(&'a V),
    Dispatch,
}

/// Answers a request from the cache when a result for `text` is stored, so
/// that only a miss reaches the worker pool.
pub fn begin_analysis<'a, V>(cache: &'a ResultCache<V>, text: &str) -> (r: AnalysisStart<'a, V>)
    ensures
        match r {
            AnalysisStart::Cached(v) => cache@.contains_key(content_fingerprint(text@)) && *v == cache@[content_fingerprint(text@)],
            AnalysisStart::Dispatch => !cache@.contains_key(content_fingerprint(text@)),
        },
{
    match cache.lookup(text) {
        Some(v) => AnalysisStart::Cached(v),
        None => AnalysisStart::Dispatch,
    }
}

/// Once a result is stored for a text, looking that text up again finds exactly
/// that result, so a repeated request is answered from the cache.
pub proof fn lemma_cache_returns_stored<V>(cache: Map<u64, V>, text: Seq<char>, value: V)
    ensures
        cache.insert(content_fingerprint(text), value).contains_key(content_fingerprint(text)),
        cache.insert(content_fingerprint(text), value)[content_fingerprint(text)] == value,
{
}

/// Named analysis capabilities, in order of registration; each name appears once.
pub struct ModelRegistry<M> {
    entries: Vec<(String, M)>,
}

/// No name appears twice.
pub open spec fn distinct_names(names: Seq<Seq<char>>) -> bool {
    forall|i: int, j: int| 0 <= i < names.len() && 0 <= j < names.len() && i != j ==> names[i] != names[j]
}

impl<M> ModelRegistry<M> {
    /// The registered names, in order of registration.
    pub closed spec fn names(&self) -> Seq<Seq<char>> {
        self.entries@.map_values(|e: (String, M)| e.0@)
    }

    /// The registered models, in the order of `names`.
    pub closed spec fn models(&self) -> Seq<M> {
        self.entries@.map_values(|e: (String, M)| e.1)
    }

    pub open spec fn wf(&self) -> bool {
        &&& self.names().len() == self.models().len()
        &&& distinct_names(self.names())
    }

    /// An empty registry.
    pub fn new() -> (r: ModelRegistry<M>)
        ensures
            r.wf(),
            r.names().len() == 0,
    {
        let r = ModelRegistry { entries: Vec::new() };
        assert(r.names() =~= Seq::<Seq<char>>::empty());
        r
    }

    /// The number of registered models.
    pub fn len(&self) -> (r: usize)
        ensures
            r as nat == self.names().len(),
    {
        self.entries.len()
    }

    /// Registers `model` under `name`, replacing a model of the same name.
    pub fn register(&mut self, name: String, model: M)
        requires
            old(self).wf(),
        ensures
            final(self).wf(),
            final(self).names() == if old(self).names().contains(name@) {
                old(self).names()
            } else {
                old(self).names().push(name@)
            },
            forall|i: int|
                0 <= i < final(self).names().len() ==> #[trigger] final(self).models()[i] == (if final(self).names()[i] == name@ {
                    model
                } else {
                    old(self).models()[i]
                }),
    {
        let ghost old_names = self.names();
        let ghost old_models = self.models();
        let mut i: usize = 0;
        while i < self.entries.len()
            invariant
                i <= self.entries@.len(),
                self.names() == old_names,
                self.models() == old_models,
                old_names == old(self).names(),
                old_models == old(self).models(),
                old(self).wf(),
                forall|k: int| 0 <= k < i ==> old_names[k] != name@,
            decreases self.entries@.len() - i,
        {
            if self.entries[i].0 == name {
                assert(old_names[i as int] == name@);
                let old_entry = self.entries.remove(i);
                self.entries.insert(i, (old_entry.0, model));
                assert(self.names() =~= old_names);
                assert(self.models() =~= old_models.update(i as int, model));
                assert(old_names.contains(name@));
                return;
            }
            assert(old_names[i as int] != name@);
            i = i + 1;
        }
        self.entries.push((name, model));
        assert(self.names() =~= old_names.push(name@));
        assert(self.models() =~= old_models.push(model));
        assert(!old_names.contains(name@));
    }
}

/// `(average + sample) / 2`, rounded down, without overflow.
pub open spec fn next_average(average: nat, sample: nat) -> nat {
    (average + sample) / 2
}

/// Folds one more latency sample into the running average; the reserved
/// fields stay as they were.
pub fn update_metrics(metrics: &mut PerformanceMetrics, duration_ms: u64)
    ensures
        final(metrics).avg_processing_time_ms as nat == next_average(
            old(metrics).avg_processing_time_ms as nat,
            duration_ms as nat,
        ),
        final(metrics).throughput_per_second == old(metrics).throughput_per_second,
        final(metrics).memory_usage_mb == old(metrics).memory_usage_mb,
        final(metrics).accuracy_percentage == old(metrics).accuracy_percentage,
        final(metrics).false_positive_rate == old(metrics).false_positive_rate,
        final(metrics).false_negative_rate == old(metrics).false_negative_rate,
{
    let a = metrics.avg_processing_time_ms;
    let avg = a / 2 + duration_ms / 2 + (a % 2 + duration_ms % 2) / 2;
    metrics.avg_processing_time_ms = avg;
}

/// The outcome of waiting for a dispatched analysis: `None` when the wait
/// ran out before a result arrived.
pub fn resolve_wait(outcome: Option<SafetyResult<SafetyScore>>) -> (r: SafetyResult<SafetyScore>)
    ensures
        outcome is None ==> r == Err::<SafetyScore, SafetyAnalysisError>(SafetyAnalysisError::ProcessingTimeout),
        outcome matches Some(result) ==> r == result,
{
    match outcome {
        Some(result) => result,
        None => Err(SafetyAnalysisError::ProcessingTimeout),
    }
}


/// A pluggable analysis capability that callers register by name.
pub trait AnalysisModel {
    fn analyze(&self, content: &str) -> SafetyResult<SafetyScore>;

    fn get_model_info(&self) -> ModelInfo;

    fn is_ready(&self) -> bool;
}

/// What one ready model returned, and how long it took.
pub struct ModelOutput {
    pub model_name: String,
    pub result: SafetyScore,
    pub elapsed_ms: u64,
}

/// Category entries as (name text, score).
pub open spec fn entries_view(c: Seq<(String, CategoryScore)>) -> Seq<(Seq<char>, CategoryScore)> {
    c.map_values(|e: (String, CategoryScore)| (e.0@, e.1))
}

/// The category names of a list of entries.
pub open spec fn keys_of(c: Seq<(Seq<char>, CategoryScore)>) -> Seq<Seq<char>> {
    c.map_values(|e: (Seq<char>, CategoryScore)| e.0)
}

/// A category name made unique to its model: `model` + "_" + `category`.
pub open spec fn namespaced(model: Seq<char>, category: Seq<char>) -> Seq<char> {
    model + "_"@ + category
}

/// The position of the last entry named `key`, or -1 when there is none.
pub open spec fn index_of_key(cats: Seq<(Seq<char>, CategoryScore)>, key: Seq<char>) -> int
    decreases cats.len(),
{
    if cats.len() == 0 {
        -1
    } else if cats.last().0 == key {
        cats.len() - 1
    } else {
        index_of_key(cats.drop_last(), key)
    }
}

/// Sets the score of `key`: in place if the name is there, else at the end.
pub open spec fn put_category(
    cats: Seq<(Seq<char>, CategoryScore)>,
    key: Seq<char>,
    v: CategoryScore,
) -> Seq<(Seq<char>, CategoryScore)> {
    let i = index_of_key(cats, key);
    if i >= 0 {
        cats.update(i, (key, v))
    } else {
        cats.push((key, v))
    }
}

/// Puts each category of one model, under its namespaced name, in order.
pub open spec fn put_all(
    cats: Seq<(Seq<char>, CategoryScore)>,
    model: Seq<char>,
    incoming: Seq<(Seq<char>, CategoryScore)>,
) -> Seq<(Seq<char>, CategoryScore)>
    decreases incoming.len(),
{
    if incoming.len() == 0 {
        cats
    } else {
        put_category(
            put_all(cats, model, incoming.drop_last()),
            namespaced(model, incoming.last().0),
            incoming.last().1,
        )
    }
}

/// The categories of all outputs, each under its model's namespace.
pub open spec fn merged_categories(outputs: Seq<ModelOutput>) -> Seq<(Seq<char>, CategoryScore)>
    decreases outputs.len(),
{
    if outputs.len() == 0 {
        Seq::empty()
    } else {
        put_all(
            merged_categories(outputs.drop_last()),
            outputs.last().model_name@,
            entries_view(outputs.last().result.categories@),
        )
    }
}

/// The flags of all outputs, in order.
pub open spec fn merged_flags(outputs: Seq<ModelOutput>) -> Seq<SafetyFlag>
    decreases outputs.len(),
{
    if outputs.len() == 0 {
        Seq::empty()
    } else {
        merged_flags(outputs.drop_last()) + outputs.last().result.flags@
    }
}

/// The sum of the elapsed times, capped at `u64::MAX`.
pub open spec fn total_time(outputs: Seq<ModelOutput>) -> nat
    decreases outputs.len(),
{
    if outputs.len() == 0 {
        0
    } else {
        let t: nat = total_time(outputs.drop_last()) + outputs.last().elapsed_ms as nat;
        if t > u64::MAX {
            u64::MAX as nat
        } else {
            t
        }
    }
}

/// The sum of the category scores.
pub open spec fn score_sum(cats: Seq<(Seq<char>, CategoryScore)>) -> nat
    decreases cats.len(),
{
    if cats.len() == 0 {
        0
    } else {
        score_sum(cats.drop_last()) + cats.last().1.score as nat
    }
}

/// The sum of the category confidences.
pub open spec fn confidence_sum(cats: Seq<(Seq<char>, CategoryScore)>) -> nat
    decreases cats.len(),
{
    if cats.len() == 0 {
        0
    } else {
        confidence_sum(cats.drop_last()) + cats.last().1.confidence as nat
    }
}

/// The mean of `sum` over `n` items, rounded down; 0 when there are none.
pub open spec fn mean(sum: nat, n: nat) -> nat {
    if n == 0 {
        0
    } else {
        sum / n
    }
}

/// An overall score that is the mean of its category scores, and a confidence
/// that is the mean of theirs.
pub open spec fn score_is_mean(s: SafetyScore) -> bool {
    let cats = entries_view(s.categories@);
    &&& s.overall_score as nat == mean(score_sum(cats), cats.len())
    &&& s.confidence as nat == mean(confidence_sum(cats), cats.len())
}

proof fn lemma_index_of_present_key(cats: Seq<(Seq<char>, CategoryScore)>, key: Seq<char>, i: int)
    requires
        distinct_names(keys_of(cats)),
        0 <= i < cats.len(),
        cats[i].0 == key,
    ensures
        index_of_key(cats, key) == i,
    decreases cats.len(),
{
    let last = cats.len() - 1;
    if i != last {
        assert(keys_of(cats)[i] != keys_of(cats)[last]);
        assert(keys_of(cats.drop_last()) =~= keys_of(cats).drop_last());
        lemma_index_of_present_key(cats.drop_last(), key, i);
    }
}

proof fn lemma_index_of_absent_key(cats: Seq<(Seq<char>, CategoryScore)>, key: Seq<char>)
    requires
        forall|k: int| 0 <= k < cats.len() ==> cats[k].0 != key,
    ensures
        index_of_key(cats, key) == -1,
    decreases cats.len(),
{
    if cats.len() > 0 {
        lemma_index_of_absent_key(cats.drop_last(), key);
    }
}

/// Puts `v` under `key` into a list of entries whose names are distinct.
fn put_entry(cats: &mut Vec<(String, CategoryScore)>, key: String, v: CategoryScore)
    requires
        distinct_names(keys_of(entries_view(old(cats)@))),
    ensures
        distinct_names(keys_of(entries_view(final(cats)@))),
        entries_view(final(cats)@) == put_category(entries_view(old(cats)@), key@, v),
{
    let ghost before = entries_view(cats@);
    let mut i: usize = 0;
    while i < cats.len()
        invariant
            i <= cats@.len(),
            entries_view(cats@) == before,
            before == entries_view(old(cats)@),
            distinct_names(keys_of(before)),
            forall|k: int| 0 <= k < i ==> before[k].0 != key@,
        decreases cats@.len() - i,
    {
        if cats[i].0 == key {
            assert(before[i as int].0 == key@);
            proof {
                lemma_index_of_present_key(before, key@, i as int);
            }
            let _ = cats.remove(i);
            cats.insert(i, (key, v));
            assert(entries_view(cats@) =~= before.update(i as int, (key@, v)));
            assert(keys_of(entries_view(cats@)) =~= keys_of(before));
            return;
        }
        i = i + 1;
    }
    cats.push((key, v));
    assert(entries_view(cats@) =~= before.push((key@, v)));
    proof {
        lemma_index_of_absent_key(before, key@);
    }
    assert forall|a: int, b: int| 0 <= a < before.len() + 1 && 0 <= b < before.len() + 1 && a != b
        implies #[trigger] keys_of(entries_view(cats@))[a] != #[trigger] keys_of(entries_view(cats@))[b] by {
        if a < before.len() && b < before.len() {
            assert(keys_of(before)[a] != keys_of(before)[b]);
        }
    }
    assert(keys_of(entries_view(cats@)) =~= keys_of(before).push(key@));
}

/// Merges the outputs of the ready models, in order: each category goes under
/// `model_category` (a later name replaces an earlier equal one), flags are
/// concatenated, the overall score and confidence are the means over the merged
/// categories, and the elapsed times are summed.
pub fn merge_model_results(outputs: Vec<ModelOutput>, metadata: AnalysisMetadata) -> (r: SafetyScore)
    ensures
        entries_view(r.categories@) == merged_categories(outputs@),
        distinct_names(keys_of(entries_view(r.categories@))),
        r.flags@ == merged_flags(outputs@),
        r.processing_time_ms as nat == total_time(outputs@),
        score_is_mean(r),
        r.metadata == metadata,
{
    let ghost all = outputs@;
    let mut pending = outputs;
    let mut categories: Vec<(String, CategoryScore)> = Vec::new();
    let mut flags: Vec<SafetyFlag> = Vec::new();
    let mut time: u64 = 0;
    let mut done: usize = 0;
    let total: usize = pending.len();
    assert(keys_of(entries_view(categories@)) =~= Seq::<Seq<char>>::empty());
    while pending.len() > 0
        invariant
            total == all.len(),
            done + pending@.len() == all.len(),
            pending@ == all.subrange(done as int, all.len() as int),
            entries_view(categories@) == merged_categories(all.subrange(0, done as int)),
            distinct_names(keys_of(entries_view(categories@))),
            flags@ == merged_flags(all.subrange(0, done as int)),
            time as nat == total_time(all.subrange(0, done as int)),
        decreases pending@.len(),
    {
        let output = pending.remove(0);
        let ghost prefix = all.subrange(0, done as int);
        let ghost cats_before = entries_view(categories@);
        assert(all.subrange(0, done + 1).drop_last() =~= prefix);
        assert(all.subrange(0, done + 1).last() == output);
        let ModelOutput { model_name, result, elapsed_ms } = output;
        let SafetyScore { categories: incoming, flags: mut new_flags, .. } = result;
        let ghost incoming_all = entries_view(incoming@);
        let mut rest = incoming;
        let mut j: usize = 0;
        let count: usize = rest.len();
        while rest.len() > 0
            invariant
                count == incoming_all.len(),
                j + rest@.len() == incoming_all.len(),
                entries_view(rest@) == incoming_all.subrange(j as int, incoming_all.len() as int),
                entries_view(categories@) == put_all(cats_before, model_name@, incoming_all.subrange(0, j as int)),
                distinct_names(keys_of(entries_view(categories@))),
            decreases rest@.len(),
        {
            let ghost rest_before = rest@;
            let (category, score) = rest.remove(0);
            assert(entries_view(rest_before)[0] == incoming_all[j as int]);
            assert(incoming_all[j as int] == (category@, score));
            let key = model_name.clone().concat("_").concat(category.as_str());
            put_entry(&mut categories, key, score);
            assert(incoming_all.subrange(0, j + 1).drop_last() =~= incoming_all.subrange(0, j as int));
            assert forall|k: int| 0 <= k < rest@.len() implies entries_view(rest@)[k] == incoming_all[j + 1 + k] by {
                assert(rest@[k] == rest_before[k + 1]);
                assert(entries_view(rest_before)[k + 1] == incoming_all[j + 1 + k]);
            }
            assert(entries_view(rest@) =~= incoming_all.subrange(j + 1, incoming_all.len() as int));
            j = j + 1;
        }
        assert(incoming_all.subrange(0, j as int) =~= incoming_all);
        flags.append(&mut new_flags);
        time = if time > u64::MAX - elapsed_ms {
            u64::MAX
        } else {
            time + elapsed_ms
        };
        assert(pending@ =~= all.subrange(done + 1, all.len() as int));
        done = done + 1;
    }
    assert(all.subrange(0, done as int) =~= all);
    let (overall_score, confidence) = category_means(&categories);
    SafetyScore {
        overall_score,
        confidence,
        categories,
        flags,
        processing_time_ms: time,
        metadata,
    }
}

/// The means of the category scores and of the category confidences.
fn category_means(cats: &Vec<(String, CategoryScore)>) -> (r: (u64, u64))
    ensures
        r.0 as nat == mean(score_sum(entries_view(cats@)), cats@.len()),
        r.1 as nat == mean(confidence_sum(entries_view(cats@)), cats@.len()),
{
    let n: usize = cats.len();
    let mut s: u128 = 0;
    let mut c: u128 = 0;
    let mut i: usize = 0;
    while i < n
        invariant
            n == cats@.len(),
            i <= n,
            s as nat == score_sum(entries_view(cats@.subrange(0, i as int))),
            c as nat == confidence_sum(entries_view(cats@.subrange(0, i as int))),
            s <= i * (u64::MAX as nat),
            c <= i * (u64::MAX as nat),
        decreases n - i,
    {
        assert(entries_view(cats@.subrange(0, i + 1)).drop_last() =~= entries_view(cats@.subrange(0, i as int)));
        assert(entries_view(cats@.subrange(0, i + 1)).last() == (cats@[i as int].0@, cats@[i as int].1));
        assert((i + 1) * (u64::MAX as nat) == i * (u64::MAX as nat) + u64::MAX) by (nonlinear_arith);
        assert((i + 1) * (u64::MAX as nat) <= u128::MAX) by (nonlinear_arith)
            requires i < n, n <= usize::MAX;
        s = s + cats[i].1.score as u128;
        c = c + cats[i].1.confidence as u128;
        i = i + 1;
    }
    assert(cats@.subrange(0, i as int) =~= cats@);
    if n == 0 {
        return (0, 0);
    }
    let nn = n as u128;
    assert(s / nn <= u64::MAX) by (nonlinear_arith)
        requires s <= nn * (u64::MAX as nat), nn > 0;
    assert(c / nn <= u64::MAX) by (nonlinear_arith)
        requires c <= nn * (u64::MAX as nat), nn > 0;
    ((s / nn) as u64, (c / nn) as u64)
}


/// The version reported in analysis metadata.
pub const ANALYZER_VERSION: &'static str = "0.1.0";

/// The stages every analysis is reported to pass through.
pub open spec fn pipeline_stages() -> Seq<Seq<char>> {
    seq!["preprocessing"@, "tokenization"@, "analysis"@, "scoring"@, "postprocessing"@]
}

/// The texts of a list of strings.
pub open spec fn strings_view(v: Seq<String>) -> Seq<Seq<char>> {
    v.map_values(|s: String| s@)
}

/// Metadata for an analysis run now on this machine, which runs `platform`.
pub fn create_metadata(platform: &str) -> (r: AnalysisMetadata)
    ensures
        r.analyzer_version@ == ANALYZER_VERSION@,
        r.model_versions@.len() == 0,
        strings_view(r.processing_pipeline@) == pipeline_stages(),
        r.system_info.cpu_cores >= 1,
        r.system_info.memory_mb == 0,
        r.system_info.platform@ == platform@,
{
    let mut pipeline: Vec<String> = Vec::new();
    pipeline.push(String::from_str("preprocessing"));
    pipeline.push(String::from_str("tokenization"));
    pipeline.push(String::from_str("analysis"));
    pipeline.push(String::from_str("scoring"));
    pipeline.push(String::from_str("postprocessing"));
    assert(strings_view(pipeline@) =~= pipeline_stages());
    AnalysisMetadata {
        analyzer_version: String::from_str(ANALYZER_VERSION),
        model_versions: Vec::new(),
        processing_pipeline: pipeline,
        system_info: SystemInfo {
            cpu_cores: crate::model::cpu_count(),
            memory_mb: 0,
            platform: String::from_str(platform),
            rust_version: String::new(),
        },
        timestamp: unix_time_secs(),
    }
}

/// What happened when one registered model was consulted.
pub enum ModelOutcome {
    /// The model reported that it was not ready and was skipped.
    NotReady,
    /// The model failed with this error.
    Failed(SafetyAnalysisError),
    /// The model returned a score.
    Delivered(ModelOutput),
}

/// The outputs of the models that delivered, in order.
pub open spec fn delivered_outputs(outs: Seq<ModelOutcome>) -> Seq<ModelOutput>
    decreases outs.len(),
{
    if outs.len() == 0 {
        Seq::empty()
    } else {
        let prev = delivered_outputs(outs.drop_last());
        match outs.last() {
            ModelOutcome::Delivered(o) => prev.push(o),
            _ => prev,
        }
    }
}

/// The error of the first model that failed, if any.
pub open spec fn first_failure(outs: Seq<ModelOutcome>) -> Option<SafetyAnalysisError>
    decreases outs.len(),
{
    if outs.len() == 0 {
        None
    } else {
        match first_failure(outs.drop_last()) {
            Some(e) => Some(e),
            None => match outs.last() {
                ModelOutcome::Failed(e) => Some(e),
                _ => None,
            },
        }
    }
}

/// `outs` records, in order, the consultation of the first models named in
/// `names`: each delivered output carries its model's name, and the
/// consultation ends early only at a failure.
pub open spec fn consulted(names: Seq<Seq<char>>, outs: Seq<ModelOutcome>) -> bool {
    &&& outs.len() <= names.len()
    &&& forall|i: int| 0 <= i < outs.len() ==> (#[trigger] outs[i] matches ModelOutcome::Delivered(o)
        ==> o.model_name@ == names[i])
    &&& outs.len() < names.len() ==> outs.last() is Failed
}

/// `s` merges `outputs` as `merge_model_results` does.
pub open spec fn merges(outputs: Seq<ModelOutput>, s: SafetyScore) -> bool {
    &&& entries_view(s.categories@) == merged_categories(outputs)
    &&& distinct_names(keys_of(entries_view(s.categories@)))
    &&& s.flags@ == merged_flags(outputs)
    &&& s.processing_time_ms as nat == total_time(outputs)
    &&& score_is_mean(s)
}

/// The result owed for a consultation: the first failure; else a
/// `ModelLoadError` when no model delivered; else the merge of the outputs.
pub open spec fn combined(outs: Seq<ModelOutcome>, r: SafetyResult<SafetyScore>) -> bool {
    match first_failure(outs) {
        Some(e) => r == Err::<SafetyScore, SafetyAnalysisError>(e),
        None => if delivered_outputs(outs).len() == 0 {
            r matches Err(SafetyAnalysisError::ModelLoadError(msg)) && msg@ == "No models available"@
        } else {
            r matches Ok(s) && merges(delivered_outputs(outs), s)
        },
    }
}

/// Queries the registry's models in order of registration, skipping those
/// that are not ready and stopping at the first failure, and merges what they
/// return. No ready model at all is a `ModelLoadError`.
pub fn perform_analysis<M: AnalysisModel>(
    content: &str,
    models: &ModelRegistry<M>,
    platform: &str,
) -> (r: SafetyResult<SafetyScore>)
    ensures
        exists|outs: Seq<ModelOutcome>| consulted(models.names(), outs) && combined(outs, r),
        models.names().len() == 0 ==> (r matches Err(SafetyAnalysisError::ModelLoadError(msg))
            && msg@ == "No models available"@),
        r matches Ok(s) ==> strings_view(s.metadata.processing_pipeline@) == pipeline_stages(),
{
    let ghost names = models.names();
    let ghost mut outs: Seq<ModelOutcome> = Seq::empty();
    let mut outputs: Vec<ModelOutput> = Vec::new();
    let mut i: usize = 0;
    while i < models.entries.len()
        invariant
            names == models.names(),
            i <= models.entries@.len(),
            outs.len() == i,
            names.len() == models.entries@.len(),
            forall|k: int| 0 <= k < outs.len() ==> (#[trigger] outs[k] matches ModelOutcome::Delivered(o)
                ==> o.model_name@ == names[k]),
            first_failure(outs) is None,
            delivered_outputs(outs) == outputs@,
        decreases models.entries@.len() - i,
    {
        let entry = &models.entries[i];
        assert(names[i as int] == entry.0@);
        let ghost prev = outs;
        if entry.1.is_ready() {
            let start = start_timer();
            match entry.1.analyze(content) {
                Ok(result) => {
                    let elapsed = elapsed_ms(&start);
                    let output = ModelOutput { model_name: entry.0.clone(), result, elapsed_ms: elapsed };
                    proof {
                        outs = outs.push(ModelOutcome::Delivered(output));
                    }
                    outputs.push(output);
                },
                Err(e) => {
                    proof {
                        outs = outs.push(ModelOutcome::Failed(e));
                        assert(outs.drop_last() =~= prev);
                        assert(consulted(names, outs));
                        assert(combined(outs, Err::<SafetyScore, SafetyAnalysisError>(e)));
                    }
                    return Err(e);
                },
            }
        } else {
            proof {
                outs = outs.push(ModelOutcome::NotReady);
            }
        }
        assert(outs.drop_last() =~= prev);
        i = i + 1;
    }
    assert(consulted(names, outs));
    if outputs.len() == 0 {
        let r = Err(SafetyAnalysisError::ModelLoadError(String::from_str("No models available")));
        assert(combined(outs, r));
        return r;
    }
    let s = merge_model_results(outputs, create_metadata(platform));
    assert(combined(outs, Ok::<SafetyScore, SafetyAnalysisError>(s)));
    Ok(s)
}

/// The result delivered for slot `i`: the last tagged result with index `i`.
pub open spec fn slot_of(tagged: Seq<(usize, SafetyResult<SafetyScore>)>, i: int) -> Option<SafetyResult<SafetyScore>>
    decreases tagged.len(),
{
    if tagged.len() == 0 {
        None
    } else if tagged.last().0 == i {
        Some(tagged.last().1)
    } else {
        slot_of(tagged.drop_last(), i)
    }
}

/// All scores in slot order, or what the first slot that holds no score says:
/// its error, or `ConcurrencyError` for a slot that nothing was delivered to.
pub open spec fn gather(slots: Seq<Option<SafetyResult<SafetyScore>>>) -> SafetyResult<Seq<SafetyScore>>
    decreases slots.len(),
{
    if slots.len() == 0 {
        Ok(Seq::empty())
    } else {
        match gather(slots.drop_last()) {
            Err(e) => Err(e),
            Ok(prev) => match slots.last() {
                None => Err(SafetyAnalysisError::ConcurrencyError),
                Some(Err(e)) => Err(e),
                Some(Ok(s)) => Ok(prev.push(s)),
            },
        }
    }
}

/// The slots of a batch of `n` items.
pub open spec fn batch_slots(n: nat, tagged: Seq<(usize, SafetyResult<SafetyScore>)>) -> Seq<Option<SafetyResult<SafetyScore>>> {
    Seq::new(n, |i: int| slot_of(tagged, i))
}

proof fn lemma_gather_err_persists(slots: Seq<Option<SafetyResult<SafetyScore>>>, k: int)
    requires
        0 <= k <= slots.len(),
        gather(slots.subrange(0, k)) is Err,
    ensures
        gather(slots) == gather(slots.subrange(0, k)),
    decreases slots.len() - k,
{
    if k < slots.len() {
        assert(slots.subrange(0, k + 1).drop_last() =~= slots.subrange(0, k));
        lemma_gather_err_persists(slots, k + 1);
    } else {
        assert(slots.subrange(0, k) =~= slots);
    }
}

/// Puts each tagged result into its slot of `n`, then reads the slots in
/// input order: the scores in the order of the inputs, or the error of the
/// first slot without a score (`ConcurrencyError` where nothing arrived).
/// Results tagged outside `0..n` are ignored; of two with one index the later counts.
pub fn reassemble_batch(n: usize, tagged: Vec<(usize, SafetyResult<SafetyScore>)>) -> (r: SafetyResult<Vec<SafetyScore>>)
    ensures
        match r {
            Ok(v) => gather(batch_slots(n as nat, tagged@)) == Ok::<Seq<SafetyScore>, SafetyAnalysisError>(v@),
            Err(e) => gather(batch_slots(n as nat, tagged@)) == Err::<Seq<SafetyScore>, SafetyAnalysisError>(e),
        },
{
    let ghost all = tagged@;
    let mut slots: Vec<Option<SafetyResult<SafetyScore>>> = Vec::new();
    let mut k: usize = 0;
    while k < n
        invariant
            k <= n,
            slots@ == Seq::new(k as nat, |i: int| None::<SafetyResult<SafetyScore>>),
        decreases n - k,
    {
        slots.push(None);
        assert(slots@ =~= Seq::new((k + 1) as nat, |i: int| None::<SafetyResult<SafetyScore>>));
        k = k + 1;
    }
    assert(slots@ =~= batch_slots(n as nat, all.subrange(0, 0)));
    let mut pending = tagged;
    let mut done: usize = 0;
    let total: usize = pending.len();
    while pending.len() > 0
        invariant
            total == all.len(),
            done + pending@.len() == all.len(),
            pending@ == all.subrange(done as int, all.len() as int),
            slots@ == batch_slots(n as nat, all.subrange(0, done as int)),
        decreases pending@.len(),
    {
        let (index, result) = pending.remove(0);
        let ghost before = slots@;
        let ghost prefix = all.subrange(0, done + 1);
        assert(prefix.drop_last() =~= all.subrange(0, done as int));
        assert(prefix.last() == (index, result));
        if index < n {
            let _ = slots.remove(index);
            slots.insert(index, Some(result));
            assert(slots@ =~= before.update(index as int, Some(result)));
        }
        assert(slots@ =~= batch_slots(n as nat, prefix));
        assert(pending@ =~= all.subrange(done + 1, all.len() as int));
        done = done + 1;
    }
    assert(all.subrange(0, done as int) =~= all);
    let ghost full = slots@;
    let mut out: Vec<SafetyScore> = Vec::new();
    let mut j: usize = 0;
    while slots.len() > 0
        invariant
            j + slots@.len() == full.len(),
            full.len() == n,
            full == batch_slots(n as nat, tagged@),
            slots@ == full.subrange(j as int, full.len() as int),
            gather(full.subrange(0, j as int)) == Ok::<Seq<SafetyScore>, SafetyAnalysisError>(out@),
        decreases slots@.len(),
    {
        let slot = slots.remove(0);
        assert(full.subrange(0, j + 1).drop_last() =~= full.subrange(0, j as int));
        assert(full.subrange(0, j + 1).last() == slot);
        match slot {
            None => {
                proof {
                    lemma_gather_err_persists(full, j + 1);
                }
                return Err(SafetyAnalysisError::ConcurrencyError);
            },
            Some(Err(e)) => {
                proof {
                    lemma_gather_err_persists(full, j + 1);
                }
                return Err(e);
            },
            Some(Ok(s)) => {
                out.push(s);
            },
        }
        assert(slots@ =~= full.subrange(j + 1, full.len() as int));
        j = j + 1;
    }
    assert(full.subrange(0, j as int) =~= full);
    Ok(out)
}

proof fn lemma_slot_of_unique(tagged: Seq<(usize, SafetyResult<SafetyScore>)>, k: int)
    requires
        0 <= k < tagged.len(),
        forall|a: int, b: int| 0 <= a < tagged.len() && 0 <= b < tagged.len() && a != b ==> tagged[a].0 != tagged[b].0,
    ensures
        slot_of(tagged, tagged[k].0 as int) == Some(tagged[k].1),
    decreases tagged.len(),
{
    let last = tagged.len() - 1;
    if k != last {
        assert(tagged[k].0 != tagged[last].0);
        assert(tagged.drop_last()[k] == tagged[k]);
        lemma_slot_of_unique(tagged.drop_last(), k);
    }
}

proof fn lemma_gather_all_scores(slots: Seq<Option<SafetyResult<SafetyScore>>>)
    requires
        forall|i: int| 0 <= i < slots.len() ==> (#[trigger] slots[i] matches Some(Ok(_))),
    ensures
        gather(slots) == Ok::<Seq<SafetyScore>, SafetyAnalysisError>(Seq::new(slots.len(), |i: int| slots[i]->Some_0->Ok_0)),
    decreases slots.len(),
{
    if slots.len() > 0 {
        let prev = slots.drop_last();
        assert(forall|i: int| 0 <= i < prev.len() ==> prev[i] == slots[i]);
        lemma_gather_all_scores(prev);
        assert(slots[slots.len() - 1] matches Some(Ok(_)));
        assert(slots.last() == slots[slots.len() - 1]);
        assert(gather(slots) == Ok::<Seq<SafetyScore>, SafetyAnalysisError>(
            Seq::new(prev.len(), |i: int| prev[i]->Some_0->Ok_0).push(slots.last()->Some_0->Ok_0),
        ));
        assert(Seq::new(prev.len(), |i: int| prev[i]->Some_0->Ok_0).push(slots.last()->Some_0->Ok_0) =~= Seq::new(slots.len(), |i: int| slots[i]->Some_0->Ok_0));
    } else {
        assert(Seq::new(slots.len(), |i: int| slots[i]->Some_0->Ok_0) =~= Seq::<SafetyScore>::empty());
    }
}

/// Some result was tagged with index `i`.
pub open spec fn delivered(tagged: Seq<(usize, SafetyResult<SafetyScore>)>, i: int) -> bool {
    exists|k: int| 0 <= k < tagged.len() && #[trigger] tagged[k].0 == i
}

/// When each of `n` items delivers one successful result tagged with its
/// index, in whatever order they arrive, the batch holds each score at its
/// input's position.
pub proof fn lemma_batch_keeps_input_order(n: nat, tagged: Seq<(usize, SafetyResult<SafetyScore>)>)
    requires
        forall|k: int| 0 <= k < tagged.len() ==> (#[trigger] tagged[k]).0 < n && tagged[k].1 is Ok,
        forall|a: int, b: int| 0 <= a < tagged.len() && 0 <= b < tagged.len() && a != b ==> tagged[a].0 != tagged[b].0,
        forall|i: int| 0 <= i < n ==> #[trigger] delivered(tagged, i),
    ensures
        gather(batch_slots(n, tagged)) matches Ok(v) && v.len() == n && forall|k: int| 0 <= k < tagged.len() ==> v[(#[trigger] tagged[k]).0 as int] == tagged[k].1->Ok_0,
{
    let slots = batch_slots(n, tagged);
    assert forall|i: int| 0 <= i < slots.len() implies (#[trigger] slots[i] matches Some(Ok(_))) by {
        assert(delivered(tagged, i));
        let k = choose|k: int| 0 <= k < tagged.len() && #[trigger] tagged[k].0 == i;
        lemma_slot_of_unique(tagged, k);
    }
    lemma_gather_all_scores(slots);
    assert forall|k: int| 0 <= k < tagged.len() implies Seq::new(slots.len(), |i: int| slots[i]->Some_0->Ok_0)[(#[trigger] tagged[k]).0 as int] == tagged[k].1->Ok_0 by {
        lemma_slot_of_unique(tagged, k);
    }
}


/// An analysis front end: one text, a batch, and a description of itself.
pub trait SafetyAnalyzer {
    fn analyze_content(&self, content: &str) -> SafetyResult<SafetyScore>;

    fn batch_analyze(&self, contents: &[&str]) -> SafetyResult<Vec<SafetyScore>>;

    fn get_analyzer_info(&self) -> AnalyzerInfo;
}

/// Evaluates content against constitutional principles.
pub trait ConstitutionalPrincipleEvaluator {
    fn evaluate_principle(&self, content: &str, principle: &ConstitutionalPrinciple) -> SafetyResult<PrincipleScore>;

    fn apply_all_principles(&self, content: &str) -> SafetyResult<ConstitutionalAnalysis>;
}

/// Detects bias in content.
pub trait BiasDetector {
    fn detect_bias(&self, content: &str) -> SafetyResult<BiasAnalysis>;

    fn get_bias_categories(&self) -> Vec<BiasCategory>;
}

/// Scores content for toxicity.
pub trait ToxicityAnalyzer {
    fn analyze_toxicity(&self, content: &str) -> SafetyResult<ToxicityScore>;

    /// In ten-thousandths.
    fn get_toxicity_threshold(&self) -> u64;
}

/// The description of the concurrent analysis engine, with its current metrics.
pub fn advanced_analyzer_info(metrics: PerformanceMetrics) -> (r: AnalyzerInfo)
    ensures
        r.name@ == "AdvancedSafetyAnalyzer"@,
        r.version@ == ANALYZER_VERSION@,
        strings_view(r.capabilities@) == seq![
            "content_analysis"@,
            "bias_detection"@,
            "toxicity_analysis"@,
            "constitutional_ai"@,
            "concurrent_processing"@,
        ],
        strings_view(r.supported_languages@) == seq!["english"@, "spanish"@, "french"@, "german"@],
        r.performance_metrics == metrics,
{
    let mut capabilities: Vec<String> = Vec::new();
    capabilities.push(String::from_str("content_analysis"));
    capabilities.push(String::from_str("bias_detection"));
    capabilities.push(String::from_str("toxicity_analysis"));
    capabilities.push(String::from_str("constitutional_ai"));
    capabilities.push(String::from_str("concurrent_processing"));
    let mut supported_languages: Vec<String> = Vec::new();
    supported_languages.push(String::from_str("english"));
    supported_languages.push(String::from_str("spanish"));
    supported_languages.push(String::from_str("french"));
    supported_languages.push(String::from_str("german"));
    let r = AnalyzerInfo {
        name: String::from_str("AdvancedSafetyAnalyzer"),
        version: String::from_str(ANALYZER_VERSION),
        capabilities,
        supported_languages,
        performance_metrics: metrics,
    };
    assert(strings_view(r.capabilities@) =~= seq![
        "content_analysis"@,
        "bias_detection"@,
        "toxicity_analysis"@,
        "constitutional_ai"@,
        "concurrent_processing"@,
    ]);
    assert(strings_view(r.supported_languages@) =~= seq!["english"@, "spanish"@, "french"@, "german"@]);
    r
}


/// Ends one dispatched analysis. A delivered score is stored for `text` and
/// its latency folded into the metrics; a timeout or an error leaves both as
/// they were and is returned.
pub fn finish_analysis(
    cache: &mut ResultCache<SafetyScore>,
    metrics: &mut PerformanceMetrics,
    text: &str,
    outcome: Option<SafetyResult<SafetyScore>>,
    elapsed_ms: u64,
) -> (r: SafetyResult<()>)
    ensures
        outcome is None ==> r == Err::<(), SafetyAnalysisError>(SafetyAnalysisError::ProcessingTimeout),
        outcome matches Some(Err(e)) ==> r == Err::<(), SafetyAnalysisError>(e),
        !(outcome matches Some(Ok(_))) ==> final(cache)@ == old(cache)@ && *final(metrics) == *old(metrics),
        outcome matches Some(Ok(s)) ==> r is Ok && final(cache)@ == old(cache)@.insert(content_fingerprint(text@), s)
            && final(metrics).avg_processing_time_ms as nat == next_average(
                old(metrics).avg_processing_time_ms as nat,
                elapsed_ms as nat,
            ) && *final(metrics) == (PerformanceMetrics {
                avg_processing_time_ms: final(metrics).avg_processing_time_ms,
                ..*old(metrics)
            }),
{
    match resolve_wait(outcome) {
        Ok(score) => {
            cache.store(text, score);
            update_metrics(metrics, elapsed_ms);
            Ok(())
        },
        Err(e) => Err(e),
    }
}

} // verus!
