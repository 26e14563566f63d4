//! The top-level configuration.

use vstd::prelude::*;

verus! {

/// Which parts of the library are enabled, and the authenticity to aim for.
#[derive(Debug, Clone, Copy, PartialEq, Eq, Structural)]
pub struct AegntConfig {
    /// Whether mouse humanization is enabled.
    pub mouse_enabled: bool,
    /// Whether typing humanization is enabled.
    pub typing_enabled: bool,
    /// Whether audio humanization is enabled.
    pub audio_enabled: bool,
    /// Whether visual humanization is enabled.
    pub visual_enabled: bool,
    /// Whether detection validation is enabled.
    pub detection_enabled: bool,
    /// The authenticity score to aim for, in millionths.
    pub authenticity_target: u64,
}

/// The configuration in force when none is given: everything enabled, and
/// a target of 0.95.
pub open spec fn default_aegnt_config() -> AegntConfig {
    AegntConfig {
        mouse_enabled: true,
        typing_enabled: true,
        audio_enabled: true,
        visual_enabled: true,
        detection_enabled: true,
        authenticity_target: 950_000,
    }
}

impl Default for AegntConfig {
    fn default() -> (config: Self)
        ensures
            config == default_aegnt_config(),
    {
        AegntConfig {
            mouse_enabled: true,
            typing_enabled: true,
            audio_enabled: true,
            visual_enabled: true,
            detection_enabled: true,
            authenticity_target: 950_000,
        }
    }
}

} // verus!
