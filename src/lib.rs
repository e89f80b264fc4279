//! Rule-based content safety screening: pattern categories, severity weighting,
//! context-sensitive adjustment and score aggregation, plus the pure parts of a
//! concurrent analysis engine (result cache, model registry, result merging,
//! batch reassembly and latency metrics).

pub mod text;
pub mod patterns;
pub mod clock;
pub mod model;
pub mod safety;
pub mod engine;
pub mod constitutional;
pub mod interpretability;
