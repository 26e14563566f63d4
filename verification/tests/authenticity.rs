use aegnt_27::authenticity::{
    analyze_content_patterns, calculate_confidence, AuthenticityConfig, AuthenticityConfigBuilder,
    AuthenticityEngine, PatternScore, ValidationStats, MAX_HISTORY,
};
use aegnt_27::fixed::UNIT;

fn engine() -> AuthenticityEngine {
    AuthenticityEngine::new(AuthenticityConfig::default())
}

#[test]
fn default_config_has_the_documented_values() {
    let config = AuthenticityConfig::default();
    assert_eq!(config.target_score, 950_000);
    assert!(config.enable_pattern_variation);
    assert!(config.enable_temporal_variation);
    assert_eq!(config.micro_variation_intensity, 300_000);
    assert_eq!(config.adaptation_rate, 100_000);
}

#[test]
fn builder_clamps_every_numeric_field() {
    let config = AuthenticityConfigBuilder::new()
        .target_score(2_000_000)
        .micro_variation_intensity(-5)
        .adaptation_rate(i64::MAX)
        .pattern_variation(false)
        .temporal_variation(false)
        .build();
    assert_eq!(config.target_score, UNIT);
    assert_eq!(config.micro_variation_intensity, 0);
    assert_eq!(config.adaptation_rate, UNIT);
    assert!(!config.enable_pattern_variation);
    assert!(!config.enable_temporal_variation);
}

#[test]
fn builder_keeps_values_in_range() {
    let config = AuthenticityConfigBuilder::new()
        .target_score(800_000)
        .micro_variation_intensity(500_000)
        .adaptation_rate(200_000)
        .build();
    assert_eq!(config.target_score, 800_000);
    assert_eq!(config.micro_variation_intensity, 500_000);
    assert_eq!(config.adaptation_rate, 200_000);
    assert!(config.enable_pattern_variation);
    let untouched = AuthenticityConfigBuilder::default().build();
    assert_eq!(untouched, AuthenticityConfig::default());
}

#[test]
fn engine_clamps_a_configuration_on_construction_and_update() {
    let wild = AuthenticityConfig {
        target_score: u64::MAX,
        enable_pattern_variation: false,
        enable_temporal_variation: true,
        micro_variation_intensity: 1_000_001,
        adaptation_rate: 250_000,
    };
    let mut engine = AuthenticityEngine::new(wild);
    assert_eq!(engine.get_config().target_score, UNIT);
    assert_eq!(engine.get_config().micro_variation_intensity, UNIT);
    assert_eq!(engine.get_config().adaptation_rate, 250_000);
    assert!(!engine.get_config().enable_pattern_variation);
    engine.update_config(AuthenticityConfig { adaptation_rate: 5_000_000, ..wild });
    assert_eq!(engine.get_config().adaptation_rate, UNIT);
    assert_eq!(engine.get_config().target_score, UNIT);
    assert_eq!(wild.normalized().target_score, UNIT);
}

#[test]
fn base_score_is_the_mean_of_the_factors_plus_perturbation() {
    // length 110_000, complexity 727_272, entropy 400_000
    assert_eq!(analyze_content_patterns("hello world", 400_000, 0), 412_424);
    assert_eq!(analyze_content_patterns("hello world", 400_000, 50_000), 462_424);
    assert_eq!(analyze_content_patterns("hello world", 400_000, -50_000), 362_424);
    assert_eq!(analyze_content_patterns("", 0, 0), 0);
    assert_eq!(analyze_content_patterns("", 0, -50_000), 0);
    assert_eq!(analyze_content_patterns("", 0, 50_000), 50_000);
    assert_eq!(analyze_content_patterns("", u64::MAX, i64::MAX), UNIT);
    assert_eq!(analyze_content_patterns("abc", 0, i64::MIN), 0);
}

#[test]
fn validation_of_empty_content() {
    let mut engine = engine();
    let validation = engine.validate_with("", 0, 30_000, 1_700_000_000_000, 42);
    assert_eq!(validation.authenticity_score, 30_000);
    assert_eq!(validation.pattern_analysis.len(), 27);
    assert_eq!(validation.pattern_analysis[0].name, "mouse_micro_jitter");
    assert_eq!(validation.pattern_analysis[0].score, 100_000);
    assert_eq!(validation.pattern_analysis[7].score, UNIT);
    assert_eq!(validation.confidence, 596_644);
    assert_eq!(validation.timestamp, 1_700_000_000_000);
    assert_eq!(validation.validation_id, 42);
    assert_eq!(engine.validation_count(), 1);
}

#[test]
fn random_validation_of_empty_content_stays_within_the_perturbation() {
    for _ in 0..200 {
        let mut engine = engine();
        let validation = engine.validate_authenticity("", 0).unwrap();
        assert!(validation.authenticity_score <= 50_000);
        assert_eq!(validation.confidence, 596_644);
        assert_eq!(validation.pattern_analysis.len(), 27);
    }
}

#[test]
fn random_validation_is_complete_and_in_range() {
    let mut engine = engine();
    let mut ids = Vec::new();
    for round in 0..50 {
        let content = "sample content ".repeat(round);
        let validation = engine.validate_authenticity(&content, 450_000).unwrap();
        assert!(validation.authenticity_score <= UNIT);
        assert!(validation.confidence >= 100_000 && validation.confidence <= UNIT);
        assert_eq!(validation.pattern_analysis.len(), 27);
        assert!(validation.timestamp > 1_577_836_800_000);
        // A random identifier: version 4, standard variant.
        assert_eq!((validation.validation_id >> 76) & 0xf, 4);
        assert_eq!((validation.validation_id >> 62) & 0x3, 2);
        assert!(!ids.contains(&validation.validation_id));
        ids.push(validation.validation_id);
    }
    assert_eq!(engine.validation_count(), 50);
}

#[test]
fn learning_adjustment_follows_the_recent_mean() {
    let mut engine = engine();
    assert_eq!(engine.apply_learning_adjustments(412_424), 412_424);
    engine.validate_with("", 0, 30_000, 1, 1);
    // recent mean 30_000: (500_000 - 30_000) * 0.1 = 47_000 below
    assert_eq!(engine.apply_learning_adjustments(412_424), 365_424);
    assert_eq!(engine.apply_learning_adjustments(0), -47_000);
    let second = engine.validate_with("hello world", 400_000, 0, 2, 2);
    assert_eq!(second.authenticity_score, 365_424);
    assert_eq!(second.confidence, 592_064);
}

#[test]
fn learning_adjustment_reads_only_the_ten_most_recent() {
    let mut engine = AuthenticityEngine::new(
        AuthenticityConfigBuilder::new().adaptation_rate(0).build(),
    );
    // Five validations scoring zero, then ten scoring one.
    for i in 0..5 {
        let v = engine.validate_with("", 0, i64::MIN, i, 0);
        assert_eq!(v.authenticity_score, 0);
    }
    for i in 0..10 {
        let v = engine.validate_with("", 0, i64::MAX, i, 0);
        assert_eq!(v.authenticity_score, UNIT);
    }
    // The recent mean is one: half of it is added at full rate.
    engine.update_config(AuthenticityConfigBuilder::new().adaptation_rate(1_000_000).build());
    assert_eq!(engine.apply_learning_adjustments(100_000), 600_000);
}

#[test]
fn history_evicts_a_hundred_at_once() {
    let mut engine = engine();
    for i in 0..1000 {
        engine.validate_with("", 0, 0, i, i as u128);
        assert_eq!(engine.validation_count(), (i + 1) as usize);
    }
    assert_eq!(engine.validation_count(), MAX_HISTORY);
    engine.validate_with("", 0, 0, 1000, 1000);
    assert_eq!(engine.validation_count(), 901);
    engine.validate_with("", 0, 0, 1001, 1001);
    assert_eq!(engine.validation_count(), 902);
}

#[test]
fn statistics_cover_the_whole_history() {
    let mut engine = AuthenticityEngine::new(
        AuthenticityConfigBuilder::new().adaptation_rate(0).build(),
    );
    assert_eq!(engine.get_validation_stats(), None);
    engine.validate_with("", 2_400_000, 0, 1, 1);
    engine.validate_with("", 2_700_000, 0, 2, 2);
    engine.validate_with("", 3_000_000, 0, 3, 3);
    assert_eq!(
        engine.get_validation_stats(),
        Some(ValidationStats {
            total_validations: 3,
            mean_score: 900_000,
            std_deviation: 81_649,
            min_score: 800_000,
            max_score: 1_000_000,
        })
    );
}

#[test]
fn confidence_is_neutral_without_scores_and_floored_at_a_tenth() {
    assert_eq!(calculate_confidence(&Vec::new()), 500_000);
    let one = vec![PatternScore { name: String::from("only"), score: 700_000 }];
    // (1 - 0) * 1/27 = 37_037, below the floor
    assert_eq!(calculate_confidence(&one), 100_000);
    let same: Vec<PatternScore> = (0..27)
        .map(|i| PatternScore { name: format!("p{}", i), score: 400_000 })
        .collect();
    assert_eq!(calculate_confidence(&same), UNIT);
}

#[test]
fn enhancement_preserves_the_content_and_validates_once() {
    let mut engine = engine();
    let enhanced = engine.enhance_authenticity("some text", 300_000, None).unwrap();
    assert_eq!(enhanced, "some text");
    assert_eq!(engine.validation_count(), 1);
    let enhanced = engine.enhance_authenticity("some text", 300_000, Some(0)).unwrap();
    assert_eq!(enhanced, "some text");
    assert_eq!(engine.validation_count(), 2);
    let mut plain = AuthenticityEngine::new(
        AuthenticityConfigBuilder::new()
            .pattern_variation(false)
            .temporal_variation(false)
            .micro_variation_intensity(0)
            .build(),
    );
    assert_eq!(plain.enhance_authenticity("", 0, Some(UNIT)).unwrap(), "");
}

#[test]
fn duplicate_copies_every_field() {
    let mut engine = engine();
    let validation = engine.validate_with("hello", 100_000, 10_000, 77, 99);
    let copy = validation.duplicate();
    assert_eq!(copy.authenticity_score, validation.authenticity_score);
    assert_eq!(copy.confidence, validation.confidence);
    assert_eq!(copy.timestamp, 77);
    assert_eq!(copy.validation_id, 99);
    assert_eq!(copy.pattern_analysis.len(), validation.pattern_analysis.len());
    for (a, b) in copy.pattern_analysis.iter().zip(validation.pattern_analysis.iter()) {
        assert_eq!(a.name, b.name);
        assert_eq!(a.score, b.score);
    }
}

#[test]
fn base_score_stays_within_the_perturbation_of_the_factor_mean() {
    let long = "x".repeat(1000);
    // length 1, complexity 1/1000, entropy 0: mean 333_666
    assert_eq!(analyze_content_patterns(&long, 0, 0), 333_666);
    assert_eq!(analyze_content_patterns(&long, 0, 50_000), 383_666);
    assert_eq!(analyze_content_patterns(&long, 0, -50_000), 283_666);
    for perturbation in [-50_000i64, -1, 0, 1, 50_000] {
        for content in ["", "a", "hello world", long.as_str()] {
            let plain = analyze_content_patterns(content, 1_000_000, 0) as i64;
            let moved = analyze_content_patterns(content, 1_000_000, perturbation) as i64;
            assert!(moved >= 0 && moved <= 1_000_000);
            assert!((moved - plain).abs() <= 50_000);
        }
    }
}
