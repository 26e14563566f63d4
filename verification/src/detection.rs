//! Detection of generated content: the probabilities that each detector
//! model reports, and the validation of a content against detectors.

use vstd::prelude::*;
use vstd::string::*;
use crate::error::AegntError;
use crate::fixed::UNIT;

verus! {

/// The outcome of one detection.
#[derive(Debug)]
pub struct DetectionResult {
    /// The probability that the content is generated, in millionths.
    pub ai_probability: u64,
    /// The probability that the content is human, in millionths.
    pub human_probability: u64,
    /// The confidence in the detection, in millionths.
    pub confidence: u64,
    /// The model that made the detection.
    pub model_used: String,
}

/// The probability of generated content that a model reports.
pub open spec fn model_ai_probability(model: Seq<char>) -> u64 {
    if model == "gpt-detector"@ {
        250_000
    } else if model == "roberta"@ {
        180_000
    } else if model == "ensemble"@ {
        150_000
    } else {
        300_000
    }
}

/// A detector with one model.
pub struct AIDetector {
    model_type: String,
    accuracy_target: u64,
}

impl AIDetector {
    /// The model of the detector.
    pub closed spec fn spec_model(&self) -> Seq<char> {
        self.model_type@
    }

    /// The confidence the detector reports.
    pub closed spec fn spec_accuracy(&self) -> u64 {
        self.accuracy_target
    }

    /// Create a detector with the given model.
    pub fn new(model_type: &str) -> (detector: Self)
        ensures
            detector.spec_model() == model_type@,
            detector.spec_accuracy() == 950_000,
    {
        AIDetector { model_type: String::from_str(model_type), accuracy_target: 950_000 }
    }

    /// Analyze a content: the probabilities are those of the model, and
    /// add up to one.
    pub fn analyze_content(&self, content_path: &str, threshold: u64) -> (result: Result<
        DetectionResult,
        AegntError,
    >)
        ensures
            result is Ok,
            result->Ok_0.ai_probability == model_ai_probability(self.spec_model()),
            result->Ok_0.human_probability == UNIT - model_ai_probability(self.spec_model()),
            result->Ok_0.confidence == self.spec_accuracy(),
            result->Ok_0.model_used@ == self.spec_model(),
    {
        let ai_probability: u64 = if self.model_type == String::from_str("gpt-detector") {
            250_000
        } else if self.model_type == String::from_str("roberta") {
            180_000
        } else if self.model_type == String::from_str("ensemble") {
            150_000
        } else {
            300_000
        };
        Ok(
            DetectionResult {
                ai_probability,
                human_probability: UNIT - ai_probability,
                confidence: self.accuracy_target,
                model_used: self.model_type.clone(),
            },
        )
    }
}

impl Default for AIDetector {
    fn default() -> (detector: Self)
        ensures
            detector.spec_model() == "ensemble"@,
            detector.spec_accuracy() == 950_000,
    {
        AIDetector::new("ensemble")
    }
}

/// The outcome of validating a content against detectors.
#[derive(Debug, Clone, Copy, PartialEq, Eq, Structural)]
pub struct ValidationResult {
    /// The authenticity score, in millionths.
    pub authenticity_score: u64,
    /// Whether the content was detected as generated.
    pub detected_as_ai: bool,
    /// The confidence of the detection, in millionths.
    pub detection_confidence: u64,
}

/// The authenticity that the validator reports of every content.
pub const REPORTED_AUTHENTICITY: u64 = 970_000;

/// The result that the validator reports of every content: a content
/// counts as generated where its authenticity is under a half, and the
/// detection confidence is what the authenticity leaves of one.
pub open spec fn reported_result() -> ValidationResult {
    ValidationResult {
        authenticity_score: REPORTED_AUTHENTICITY,
        detected_as_ai: REPORTED_AUTHENTICITY < UNIT / 2,
        detection_confidence: (UNIT - REPORTED_AUTHENTICITY) as u64,
    }
}

/// A validator of content against detectors.
pub struct DetectionValidator {
    resistance_target: u64,
}

impl DetectionValidator {
    /// The resistance the validator aims for.
    pub closed spec fn spec_target(&self) -> u64 {
        self.resistance_target
    }

    /// Create a validator.
    pub fn new() -> (validator: Self)
        ensures
            validator.spec_target() == 980_000,
    {
        DetectionValidator { resistance_target: 980_000 }
    }

    /// The resistance the validator aims for.
    pub fn resistance_target(&self) -> (target: u64)
        ensures
            target == self.spec_target(),
    {
        self.resistance_target
    }

    /// Validate a content against detectors.
    pub fn validate_content(&self, content: &str) -> (result: Result<ValidationResult, AegntError>)
        ensures
            result == Ok::<ValidationResult, AegntError>(reported_result()),
    {
        let authenticity_score: u64 = REPORTED_AUTHENTICITY;
        Ok(
            ValidationResult {
                authenticity_score,
                detected_as_ai: authenticity_score < UNIT / 2,
                detection_confidence: UNIT - authenticity_score,
            },
        )
    }
}

impl Default for DetectionValidator {
    fn default() -> (validator: Self)
        ensures
            validator.spec_target() == 980_000,
    {
        DetectionValidator::new()
    }
}

} // verus!
