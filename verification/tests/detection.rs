use aegnt_27::detection::{AIDetector, DetectionValidator, ValidationResult};
use aegnt_27::prelude::{AegntConfig, AegntEngine};

#[test]
fn each_model_reports_its_probability() {
    let cases = [
        ("gpt-detector", 250_000),
        ("roberta", 180_000),
        ("ensemble", 150_000),
        ("something-else", 300_000),
        ("", 300_000),
    ];
    for (model, ai_probability) in cases {
        let result = AIDetector::new(model).analyze_content("content.txt", 500_000).unwrap();
        assert_eq!(result.ai_probability, ai_probability);
        assert_eq!(result.human_probability, 1_000_000 - ai_probability);
        assert_eq!(result.confidence, 950_000);
        assert_eq!(result.model_used, model);
    }
}

#[test]
fn default_detector_is_the_ensemble() {
    let result = AIDetector::default().analyze_content("content.txt", 0).unwrap();
    assert_eq!(result.model_used, "ensemble");
    assert_eq!(result.ai_probability, 150_000);
    assert_eq!(result.human_probability, 850_000);
}

#[test]
fn validator_reports_high_authenticity() {
    let validator = DetectionValidator::new();
    assert_eq!(validator.resistance_target(), 980_000);
    assert_eq!(
        validator.validate_content("any content").unwrap(),
        ValidationResult {
            authenticity_score: 970_000,
            detected_as_ai: false,
            detection_confidence: 30_000,
        }
    );
    assert_eq!(
        DetectionValidator::default().validate_content("").unwrap().authenticity_score,
        970_000
    );
}

#[test]
fn engine_holds_its_configuration() {
    let engine = AegntEngine::new().unwrap();
    assert_eq!(*engine.config(), AegntConfig::default());
    let custom = AegntConfig { mouse_enabled: false, authenticity_target: 800_000, ..AegntConfig::default() };
    let engine = AegntEngine::with_config(custom).unwrap();
    assert_eq!(*engine.config(), custom);
    assert!(!engine.config().mouse_enabled);
}
