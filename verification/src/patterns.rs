//! The pattern library: a fixed table of named behavioural signal series,
//! and the scorer that maps a content length and one series to a score.

use vstd::prelude::*;
use vstd::string::*;
use crate::fixed::{clamp_unit_spec, UNIT};

verus! {

/// The number of patterns in the library.
pub const PATTERN_COUNT: usize = 27;

/// The signal family a pattern belongs to.
#[derive(Debug, Clone, Copy, PartialEq, Eq, Structural)]
pub enum PatternCategory {
    /// Pointer movement signals.
    Movement,
    /// Keystroke timing signals.
    Timing,
    /// Voice and audio signals.
    Acoustic,
    /// Image and video signals.
    Visual,
}

/// One named series of reference values, in millionths.
#[derive(Debug)]
pub struct Pattern {
    /// The unique name of the pattern.
    pub name: String,
    /// The family of the pattern.
    pub category: PatternCategory,
    /// The reference values, never empty.
    pub values: Vec<u64>,
}

/// The name of the pattern at `index` of the library.
pub open spec fn library_name(index: usize) -> Seq<char> {
    match index {
        0 => "mouse_micro_jitter"@,
        1 => "mouse_drift_compensation"@,
        2 => "mouse_overshoot_correction"@,
        3 => "mouse_hesitation_points"@,
        4 => "mouse_acceleration_curves"@,
        5 => "mouse_fatigue_effects"@,
        6 => "mouse_precision_variation"@,
        7 => "typing_rhythm_variation"@,
        8 => "typing_muscle_memory"@,
        9 => "typing_error_recovery"@,
        10 => "typing_cognitive_load"@,
        11 => "typing_finger_strength"@,
        12 => "typing_pause_patterns"@,
        13 => "typing_autocorrect_timing"@,
        14 => "audio_breathing_rhythm"@,
        15 => "audio_vocal_fry"@,
        16 => "audio_pitch_variation"@,
        17 => "audio_formant_drift"@,
        18 => "audio_micro_pauses"@,
        19 => "audio_emphasis_patterns"@,
        20 => "audio_environmental_response"@,
        21 => "visual_compression_artifacts"@,
        22 => "visual_lighting_variation"@,
        23 => "visual_camera_shake"@,
        24 => "visual_focus_drift"@,
        25 => "visual_color_temperature"@,
        _ => "visual_temporal_noise"@,
    }
}

/// The reference values of the pattern at `index` of the library.
pub open spec fn library_values(index: usize) -> Seq<u64> {
    match index {
        0 => seq![100_000u64, 150_000, 80_000, 120_000, 200_000],
        1 => seq![50_000u64, 30_000, 70_000, 40_000],
        2 => seq![800_000u64, 950_000, 880_000, 920_000],
        3 => seq![300_000u64, 250_000, 350_000, 280_000],
        4 => seq![600_000u64, 800_000, 950_000, 850_000, 700_000],
        5 => seq![950_000u64, 920_000, 880_000, 850_000, 820_000],
        6 => seq![900_000u64, 850_000, 920_000, 880_000, 860_000],
        7 => seq![120_000_000u64, 135_000_000, 108_000_000, 142_000_000, 128_000_000],
        8 => seq![950_000u64, 880_000, 920_000, 960_000, 890_000],
        9 => seq![20_000u64, 15_000, 25_000, 18_000],
        10 => seq![150_000u64, 220_000, 180_000, 250_000, 120_000],
        11 => seq![900_000u64, 850_000, 950_000, 880_000, 920_000],
        12 => seq![300_000u64, 500_000, 800_000, 1_200_000, 400_000],
        13 => seq![200_000u64, 350_000, 150_000, 280_000, 420_000],
        14 => seq![4_200_000u64, 3_800_000, 4_500_000, 3_900_000, 4_100_000],
        15 => seq![100_000u64, 50_000, 150_000, 80_000, 120_000],
        16 => seq![800_000u64, 1_200_000, 900_000, 1_100_000, 950_000],
        17 => seq![20_000u64, 15_000, 25_000, 18_000],
        18 => seq![100_000u64, 150_000, 80_000, 120_000, 200_000],
        19 => seq![1_300_000u64, 1_100_000, 1_400_000, 1_200_000, 1_150_000],
        20 => seq![50_000u64, 30_000, 70_000, 40_000],
        21 => seq![20_000u64, 15_000, 25_000, 18_000],
        22 => seq![900_000u64, 1_100_000, 950_000, 1_050_000, 980_000],
        23 => seq![500_000u64, 300_000, 700_000, 400_000, 600_000],
        24 => seq![20_000u64, 15_000, 25_000, 18_000],
        25 => seq![6_500_000_000u64, 6_200_000_000, 6_800_000_000, 6_400_000_000],
        _ => seq![10_000u64, 8_000, 15_000, 12_000],
    }
}

/// The family of the pattern at `index`: seven movement, seven timing and
/// seven acoustic patterns, then six visual ones.
pub open spec fn library_category(index: usize) -> PatternCategory {
    if index < 7 {
        PatternCategory::Movement
    } else if index < 14 {
        PatternCategory::Timing
    } else if index < 21 {
        PatternCategory::Acoustic
    } else {
        PatternCategory::Visual
    }
}

/// No two patterns of the library share a name.
pub proof fn lemma_library_names_distinct(i: usize, j: usize)
    requires
        i < PATTERN_COUNT,
        j < PATTERN_COUNT,
        i != j,
    ensures
        library_name(i) != library_name(j),
{
    reveal_strlit("mouse_micro_jitter");
    reveal_strlit("mouse_drift_compensation");
    reveal_strlit("mouse_overshoot_correction");
    reveal_strlit("mouse_hesitation_points");
    reveal_strlit("mouse_acceleration_curves");
    reveal_strlit("mouse_fatigue_effects");
    reveal_strlit("mouse_precision_variation");
    reveal_strlit("typing_rhythm_variation");
    reveal_strlit("typing_muscle_memory");
    reveal_strlit("typing_error_recovery");
    reveal_strlit("typing_cognitive_load");
    reveal_strlit("typing_finger_strength");
    reveal_strlit("typing_pause_patterns");
    reveal_strlit("typing_autocorrect_timing");
    reveal_strlit("audio_breathing_rhythm");
    reveal_strlit("audio_vocal_fry");
    reveal_strlit("audio_pitch_variation");
    reveal_strlit("audio_formant_drift");
    reveal_strlit("audio_micro_pauses");
    reveal_strlit("audio_emphasis_patterns");
    reveal_strlit("audio_environmental_response");
    reveal_strlit("visual_compression_artifacts");
    reveal_strlit("visual_lighting_variation");
    reveal_strlit("visual_camera_shake");
    reveal_strlit("visual_focus_drift");
    reveal_strlit("visual_color_temperature");
    reveal_strlit("visual_temporal_noise");
    let first = library_name(i);
    let second = library_name(j);
    if first.len() == second.len() {
        // Two names of one length differ in one of these places.
        assert(first[0] != second[0] || first[6] != second[6] || first[8] != second[8]
            || first[10] != second[10] || first[13] != second[13]);
    }
}

/// Whether `patterns` is the pattern library: every entry as the table gives it.
pub open spec fn is_pattern_library(patterns: Seq<Pattern>) -> bool {
    &&& patterns.len() == PATTERN_COUNT
    &&& forall|i: int|
        0 <= i < patterns.len() ==> {
            &&& (#[trigger] patterns[i]).name@ == library_name(i as usize)
            &&& patterns[i].category == library_category(i as usize)
            &&& patterns[i].values@ == library_values(i as usize)
            &&& patterns[i].values@.len() >= 1
        }
}

fn entry_name(index: usize) -> (name: &'static str)
    requires
        index < PATTERN_COUNT,
    ensures
        name@ == library_name(index),
{
    match index {
        0 => "mouse_micro_jitter",
        1 => "mouse_drift_compensation",
        2 => "mouse_overshoot_correction",
        3 => "mouse_hesitation_points",
        4 => "mouse_acceleration_curves",
        5 => "mouse_fatigue_effects",
        6 => "mouse_precision_variation",
        7 => "typing_rhythm_variation",
        8 => "typing_muscle_memory",
        9 => "typing_error_recovery",
        10 => "typing_cognitive_load",
        11 => "typing_finger_strength",
        12 => "typing_pause_patterns",
        13 => "typing_autocorrect_timing",
        14 => "audio_breathing_rhythm",
        15 => "audio_vocal_fry",
        16 => "audio_pitch_variation",
        17 => "audio_formant_drift",
        18 => "audio_micro_pauses",
        19 => "audio_emphasis_patterns",
        20 => "audio_environmental_response",
        21 => "visual_compression_artifacts",
        22 => "visual_lighting_variation",
        23 => "visual_camera_shake",
        24 => "visual_focus_drift",
        25 => "visual_color_temperature",
        _ => "visual_temporal_noise",
    }
}

fn entry_values(index: usize) -> (values: Vec<u64>)
    requires
        index < PATTERN_COUNT,
    ensures
        values@ == library_values(index),
        values@.len() >= 1,
{
    let values: Vec<u64> = match index {
        0 => vec![100_000, 150_000, 80_000, 120_000, 200_000],
        1 => vec![50_000, 30_000, 70_000, 40_000],
        2 => vec![800_000, 950_000, 880_000, 920_000],
        3 => vec![300_000, 250_000, 350_000, 280_000],
        4 => vec![600_000, 800_000, 950_000, 850_000, 700_000],
        5 => vec![950_000, 920_000, 880_000, 850_000, 820_000],
        6 => vec![900_000, 850_000, 920_000, 880_000, 860_000],
        7 => vec![120_000_000, 135_000_000, 108_000_000, 142_000_000, 128_000_000],
        8 => vec![950_000, 880_000, 920_000, 960_000, 890_000],
        9 => vec![20_000, 15_000, 25_000, 18_000],
        10 => vec![150_000, 220_000, 180_000, 250_000, 120_000],
        11 => vec![900_000, 850_000, 950_000, 880_000, 920_000],
        12 => vec![300_000, 500_000, 800_000, 1_200_000, 400_000],
        13 => vec![200_000, 350_000, 150_000, 280_000, 420_000],
        14 => vec![4_200_000, 3_800_000, 4_500_000, 3_900_000, 4_100_000],
        15 => vec![100_000, 50_000, 150_000, 80_000, 120_000],
        16 => vec![800_000, 1_200_000, 900_000, 1_100_000, 950_000],
        17 => vec![20_000, 15_000, 25_000, 18_000],
        18 => vec![100_000, 150_000, 80_000, 120_000, 200_000],
        19 => vec![1_300_000, 1_100_000, 1_400_000, 1_200_000, 1_150_000],
        20 => vec![50_000, 30_000, 70_000, 40_000],
        21 => vec![20_000, 15_000, 25_000, 18_000],
        22 => vec![900_000, 1_100_000, 950_000, 1_050_000, 980_000],
        23 => vec![500_000, 300_000, 700_000, 400_000, 600_000],
        24 => vec![20_000, 15_000, 25_000, 18_000],
        25 => vec![6_500_000_000, 6_200_000_000, 6_800_000_000, 6_400_000_000],
        _ => vec![10_000, 8_000, 15_000, 12_000],
    };
    assert(values@ =~= library_values(index));
    values
}

fn entry_category(index: usize) -> (category: PatternCategory)
    ensures
        category == library_category(index),
{
    if index < 7 {
        PatternCategory::Movement
    } else if index < 14 {
        PatternCategory::Timing
    } else if index < 21 {
        PatternCategory::Acoustic
    } else {
        PatternCategory::Visual
    }
}

/// Build the pattern library.
pub fn initialize_pattern_library() -> (patterns: Vec<Pattern>)
    ensures
        is_pattern_library(patterns@),
{
    let mut patterns: Vec<Pattern> = Vec::new();
    let mut index: usize = 0;
    while index < PATTERN_COUNT
        invariant
            index <= PATTERN_COUNT,
            patterns@.len() == index,
            forall|i: int|
                0 <= i < index ==> {
                    &&& (#[trigger] patterns@[i]).name@ == library_name(i as usize)
                    &&& patterns@[i].category == library_category(i as usize)
                    &&& patterns@[i].values@ == library_values(i as usize)
                    &&& patterns@[i].values@.len() >= 1
                },
        decreases PATTERN_COUNT - index,
    {
        let entry = Pattern {
            name: String::from_str(entry_name(index)),
            category: entry_category(index),
            values: entry_values(index),
        };
        patterns.push(entry);
        index += 1;
    }
    patterns
}

/// The score of a content of `len` bytes against one series: the value at
/// `len` modulo the series length, plus a thousandth per byte of `len`
/// modulo a hundred, limited to the unit interval. An empty series scores
/// the neutral half.
pub open spec fn pattern_score_spec(len: int, values: Seq<u64>) -> int {
    if values.len() == 0 {
        UNIT as int / 2
    } else {
        clamp_unit_spec(values[len % (values.len() as int)] + (len % 100) * 1_000)
    }
}

/// Score a content against one series of reference values.
pub fn calculate_pattern_score(content: &str, pattern_values: &[u64]) -> (score: u64)
    ensures
        score as int == pattern_score_spec(content.spec_bytes().len() as int, pattern_values@),
        score <= UNIT,
{
    if pattern_values.len() == 0 {
        return UNIT / 2;
    }
    let len: usize = content.as_bytes().len();
    let base: u64 = pattern_values[len % pattern_values.len()];
    let variation: u64 = ((len % 100) as u64) * 1_000;
    let raised: u128 = (base as u128) + (variation as u128);
    if raised > UNIT as u128 {
        UNIT
    } else {
        raised as u64
    }
}

/// The score depends on the content only through its length: two contents
/// of equal length score alike against the same series.
pub proof fn lemma_score_depends_on_length_only(first: &str, second: &str, values: Seq<u64>)
    requires
        first.spec_bytes().len() == second.spec_bytes().len(),
    ensures
        pattern_score_spec(first.spec_bytes().len() as int, values) == pattern_score_spec(
            second.spec_bytes().len() as int,
            values,
        ),
{
}

} // verus!
