//! Load-generation engine for a pet-store microservice deployment: virtual
//! users run a fixed multi-step shopping scenario, and the outcomes are
//! aggregated into run summaries and per-endpoint breakdowns.

pub mod discovery;
pub mod executor;
pub mod load_tester;
pub mod progress;
pub mod random;
pub mod scenario;
pub mod summary;
pub mod text;
pub mod types;
