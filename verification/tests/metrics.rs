use aegnt_27::fixed::UNIT;
use aegnt_27::metrics::{
    char_frequencies, chars_of, complexity_factor, length_factor, CharCount,
};
use aegnt_27::patterns::{
    calculate_pattern_score, initialize_pattern_library, PatternCategory, PATTERN_COUNT,
};
use aegnt_27::stats::{deviation, largest, mean, smallest, total};

#[test]
fn factors_are_zero_for_empty_content() {
    assert_eq!(length_factor(""), 0);
    assert_eq!(complexity_factor(""), 0);
    assert!(char_frequencies("").is_empty());
}

#[test]
fn length_factor_is_a_hundredth_per_byte() {
    assert_eq!(length_factor("hello"), 50_000);
    assert_eq!(length_factor(&"x".repeat(99)), 990_000);
    assert_eq!(length_factor(&"x".repeat(100)), UNIT);
    assert_eq!(length_factor(&"x".repeat(5000)), UNIT);
}

#[test]
fn complexity_factor_is_the_share_of_distinct_characters() {
    assert_eq!(complexity_factor("abc"), UNIT);
    assert_eq!(complexity_factor("aab"), 666_666);
    assert_eq!(complexity_factor("aaaa"), 250_000);
    assert_eq!(complexity_factor("hello world"), 727_272);
}

#[test]
fn factors_stay_in_the_unit_interval() {
    let samples = ["", "a", "hello world", "ééé", "The quick brown fox jumps over the lazy dog"];
    for sample in samples {
        assert!(length_factor(sample) <= UNIT);
        assert!(complexity_factor(sample) <= UNIT);
    }
    let long = "ab".repeat(400);
    assert!(length_factor(&long) <= UNIT);
    assert!(complexity_factor(&long) <= UNIT);
}

#[test]
fn characters_are_read_in_order() {
    assert_eq!(chars_of("héllo"), vec!['h', 'é', 'l', 'l', 'o']);
    assert!(chars_of("").is_empty());
}

#[test]
fn frequencies_follow_first_occurrence() {
    let table = char_frequencies("abca");
    assert_eq!(
        table,
        vec![
            CharCount { ch: 'a', count: 2 },
            CharCount { ch: 'b', count: 1 },
            CharCount { ch: 'c', count: 1 },
        ]
    );
    let counted: usize = char_frequencies("mississippi").iter().map(|e| e.count).sum();
    assert_eq!(counted, 11);
}

#[test]
fn library_has_twenty_seven_patterns_in_four_families() {
    let library = initialize_pattern_library();
    assert_eq!(library.len(), PATTERN_COUNT);
    assert_eq!(library.len(), 27);
    let count = |family: PatternCategory| library.iter().filter(|p| p.category == family).count();
    assert_eq!(count(PatternCategory::Movement), 7);
    assert_eq!(count(PatternCategory::Timing), 7);
    assert_eq!(count(PatternCategory::Acoustic), 7);
    assert_eq!(count(PatternCategory::Visual), 6);
    assert!(library.iter().all(|p| !p.values.is_empty()));
    for (i, a) in library.iter().enumerate() {
        for b in library.iter().skip(i + 1) {
            assert_ne!(a.name, b.name);
        }
    }
}

#[test]
fn library_entries_hold_the_reference_values() {
    let library = initialize_pattern_library();
    assert_eq!(library[0].name, "mouse_micro_jitter");
    assert_eq!(library[0].values, vec![100_000, 150_000, 80_000, 120_000, 200_000]);
    assert_eq!(library[7].name, "typing_rhythm_variation");
    assert_eq!(library[7].values[3], 142_000_000);
    assert_eq!(library[25].name, "visual_color_temperature");
    assert_eq!(library[25].values, vec![6_500_000_000, 6_200_000_000, 6_800_000_000, 6_400_000_000]);
    assert_eq!(library[26].name, "visual_temporal_noise");
    assert_eq!(library[26].values, vec![10_000, 8_000, 15_000, 12_000]);
}

#[test]
fn pattern_score_indexes_by_length_and_adds_variation() {
    let values = [100_000, 150_000, 80_000, 120_000, 200_000];
    assert_eq!(calculate_pattern_score("", &values), 100_000);
    assert_eq!(calculate_pattern_score("1234567", &values), 87_000);
    assert_eq!(calculate_pattern_score(&"x".repeat(199), &values), 299_000);
    assert_eq!(calculate_pattern_score(&"x".repeat(200), &values), 100_000);
}

#[test]
fn pattern_score_is_neutral_for_an_empty_series() {
    assert_eq!(calculate_pattern_score("anything", &[]), 500_000);
}

#[test]
fn pattern_score_is_limited_to_one() {
    assert_eq!(calculate_pattern_score("abc", &[120_000_000]), UNIT);
    assert_eq!(calculate_pattern_score("abc", &[u64::MAX]), UNIT);
    assert_eq!(calculate_pattern_score(&"x".repeat(99), &[950_000]), UNIT);
}

#[test]
fn pattern_score_depends_on_length_only() {
    let values = [300_000, 500_000, 800_000, 1_200_000, 400_000];
    assert_eq!(
        calculate_pattern_score("abcdef", &values),
        calculate_pattern_score("zzzzzz", &values)
    );
    assert_eq!(
        calculate_pattern_score("hello world", &values),
        calculate_pattern_score("HELLO WORLD", &values)
    );
}

#[test]
fn statistics_of_scores() {
    let scores = vec![800_000, 900_000, 1_000_000];
    assert_eq!(total(&scores), 2_700_000);
    assert_eq!(mean(&scores), 900_000);
    assert_eq!(deviation(&scores), 81_649);
    assert_eq!(smallest(&scores), 800_000);
    assert_eq!(largest(&scores), 1_000_000);
    assert_eq!(mean(&Vec::new()), 0);
    assert_eq!(deviation(&Vec::new()), UNIT);
    assert_eq!(deviation(&vec![400_000, 400_000]), 0);
}
