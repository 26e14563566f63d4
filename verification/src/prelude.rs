//! The items most programs need, for one import.

pub use crate::{AegntConfig, AegntEngine, AegntError, Result};
