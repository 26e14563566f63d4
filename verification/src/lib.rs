//! Authenticity scoring against a fixed library of behavioural signal
//! patterns, adaptive learning from a bounded validation history, and the
//! rules of a durable per-user profile store.
//!
//! Every score is a fixed-point number in millionths: `UNIT` stands for
//! one. Quotients are rounded down, square roots are integer square roots,
//! and the learning adjustment is rounded toward zero. The entropy factor
//! of a content needs logarithms and is therefore an input of a
//! validation; `metrics::char_frequencies` counts what it is computed from.
//!
//! The library decides and computes; it reads no file and writes none.
//! The persistence manager says which bytes belong under which name, and
//! its caller moves them.

pub mod authenticity;
pub mod config;
pub mod detection;
pub mod error;
pub mod fixed;
pub mod metrics;
pub mod patterns;
pub mod persistence;
pub mod platform;
pub mod prelude;
pub mod profile;
pub mod stats;
pub mod text;
pub mod typing;
pub mod utils;

use vstd::prelude::*;

pub use crate::config::AegntConfig;
pub use crate::error::{AegntError, Result};

verus! {

/// The main engine: holds the configuration in force.
pub struct AegntEngine {
    config: AegntConfig,
}

impl AegntEngine {
    /// The configuration in force.
    pub closed spec fn spec_config(&self) -> AegntConfig {
        self.config
    }

    /// Create an engine with the default configuration.
    pub fn new() -> (result: Result<Self>)
        ensures
            result is Ok,
            result->Ok_0.spec_config() == crate::config::default_aegnt_config(),
    {
        Ok(AegntEngine { config: AegntConfig::default() })
    }

    /// Create an engine with the given configuration.
    pub fn with_config(config: AegntConfig) -> (result: Result<Self>)
        ensures
            result is Ok,
            result->Ok_0.spec_config() == config,
    {
        Ok(AegntEngine { config })
    }

    /// The configuration in force.
    pub fn config(&self) -> (config: &AegntConfig)
        ensures
            *config == self.spec_config(),
    {
        &self.config
    }
}

} // verus!
