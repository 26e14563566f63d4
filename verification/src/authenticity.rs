//! The authenticity engine: validation of a content against the pattern
//! library, confidence, a learning adjustment from the recent history, and
//! a bounded validation history.

use vstd::prelude::*;
use vstd::string::*;
use crate::error::AegntError;
use crate::fixed::{clamp_int, clamp_unit, clamp_unit_spec, UNIT};
use crate::metrics::{
    complexity_factor,
    complexity_factor_spec,
    lemma_factors_are_unit_scores,
    length_factor,
    length_factor_spec,
};
use crate::patterns::{
    calculate_pattern_score,
    initialize_pattern_library,
    is_pattern_library,
    library_name,
    library_values,
    pattern_score_spec,
    Pattern,
    PATTERN_COUNT,
};
use crate::platform::{is_random_identifier, new_identifier, random_below, utc_now_millis};
use crate::stats::{
    all_unit,
    deviation,
    deviation_of,
    largest,
    max_of,
    mean,
    mean_of,
    min_of,
    smallest,
};

verus! {

/// The most validations a history retains.
pub const MAX_HISTORY: usize = 1000;

/// How many of the oldest validations leave at once when the history
/// outgrows its limit.
pub const EVICTION_BATCH: usize = 100;

/// How many of the most recent validations the learning adjustment reads.
pub const RECENT_WINDOW: usize = 10;

/// The widest random perturbation of a base score, in either direction.
pub const MAX_PERTURBATION: i64 = 50_000;

/// The least confidence a validation reports.
pub const MIN_CONFIDENCE: u64 = 100_000;

/// The settings of the engine. Every numeric field is a score in millionths.
#[derive(Debug, Clone, Copy, PartialEq, Eq, Structural)]
pub struct AuthenticityConfig {
    /// The score that an enhancement aims for.
    pub target_score: u64,
    /// Whether enhancement varies behavioural patterns.
    pub enable_pattern_variation: bool,
    /// Whether enhancement varies timing.
    pub enable_temporal_variation: bool,
    /// The intensity of micro-variations.
    pub micro_variation_intensity: u64,
    /// How strongly recent history pulls a new score.
    pub adaptation_rate: u64,
}

/// `x` limited from above to one.
pub open spec fn cap_unit(x: u64) -> u64 {
    if x > UNIT {
        UNIT
    } else {
        x
    }
}

impl AuthenticityConfig {
    /// Whether every numeric field lies in the unit interval.
    pub open spec fn in_range(&self) -> bool {
        &&& self.target_score <= UNIT
        &&& self.micro_variation_intensity <= UNIT
        &&& self.adaptation_rate <= UNIT
    }

    /// This configuration with every numeric field limited to the unit
    /// interval.
    pub open spec fn clamped(&self) -> AuthenticityConfig {
        AuthenticityConfig {
            target_score: cap_unit(self.target_score),
            enable_pattern_variation: self.enable_pattern_variation,
            enable_temporal_variation: self.enable_temporal_variation,
            micro_variation_intensity: cap_unit(self.micro_variation_intensity),
            adaptation_rate: cap_unit(self.adaptation_rate),
        }
    }

    /// Limit every numeric field to the unit interval.
    pub fn normalized(self) -> (config: AuthenticityConfig)
        ensures
            config == self.clamped(),
            config.in_range(),
            self.in_range() ==> config == self,
    {
        AuthenticityConfig {
            target_score: if self.target_score > UNIT {
                UNIT
            } else {
                self.target_score
            },
            enable_pattern_variation: self.enable_pattern_variation,
            enable_temporal_variation: self.enable_temporal_variation,
            micro_variation_intensity: if self.micro_variation_intensity > UNIT {
                UNIT
            } else {
                self.micro_variation_intensity
            },
            adaptation_rate: if self.adaptation_rate > UNIT {
                UNIT
            } else {
                self.adaptation_rate
            },
        }
    }
}

/// Whatever the fields of a configuration hold, limiting it leaves every
/// numeric field in the unit interval, and limiting it again changes
/// nothing.
pub proof fn lemma_clamped_is_in_range(config: AuthenticityConfig)
    ensures
        config.clamped().in_range(),
        config.clamped().clamped() == config.clamped(),
        config.in_range() ==> config.clamped() == config,
{
}

/// The configuration an engine starts from when none is given.
pub open spec fn default_config() -> AuthenticityConfig {
    AuthenticityConfig {
        target_score: 950_000,
        enable_pattern_variation: true,
        enable_temporal_variation: true,
        micro_variation_intensity: 300_000,
        adaptation_rate: 100_000,
    }
}

impl Default for AuthenticityConfig {
    fn default() -> (config: Self)
        ensures
            config == default_config(),
            config.in_range(),
    {
        AuthenticityConfig {
            target_score: 950_000,
            enable_pattern_variation: true,
            enable_temporal_variation: true,
            micro_variation_intensity: 300_000,
            adaptation_rate: 100_000,
        }
    }
}

/// Accumulates the fields of a configuration, limiting each numeric field
/// to the unit interval as it is set.
pub struct AuthenticityConfigBuilder {
    config: AuthenticityConfig,
}

impl AuthenticityConfigBuilder {
    #[verifier::type_invariant]
    spec fn well_formed(self) -> bool {
        self.config.in_range()
    }

    /// The configuration accumulated so far.
    pub closed spec fn pending(&self) -> AuthenticityConfig {
        self.config
    }

    /// Start from the default configuration.
    pub fn new() -> (builder: Self)
        ensures
            builder.pending() == default_config(),
    {
        AuthenticityConfigBuilder { config: AuthenticityConfig::default() }
    }

    /// Set the target score, limited to the unit interval.
    pub fn target_score(self, score: i64) -> (builder: Self)
        ensures
            builder.pending() == (AuthenticityConfig {
                target_score: clamp_unit_spec(score as int) as u64,
                ..self.pending()
            }),
            builder.pending().in_range(),
    {
        proof {
            use_type_invariant(&self);
        }
        let mut config = self.config;
        config.target_score = clamp_unit(score);
        AuthenticityConfigBuilder { config }
    }

    /// Enable or disable pattern variation.
    pub fn pattern_variation(self, enabled: bool) -> (builder: Self)
        ensures
            builder.pending() == (AuthenticityConfig {
                enable_pattern_variation: enabled,
                ..self.pending()
            }),
            builder.pending().in_range(),
    {
        proof {
            use_type_invariant(&self);
        }
        let mut config = self.config;
        config.enable_pattern_variation = enabled;
        AuthenticityConfigBuilder { config }
    }

    /// Enable or disable temporal variation.
    pub fn temporal_variation(self, enabled: bool) -> (builder: Self)
        ensures
            builder.pending() == (AuthenticityConfig {
                enable_temporal_variation: enabled,
                ..self.pending()
            }),
            builder.pending().in_range(),
    {
        proof {
            use_type_invariant(&self);
        }
        let mut config = self.config;
        config.enable_temporal_variation = enabled;
        AuthenticityConfigBuilder { config }
    }

    /// Set the micro-variation intensity, limited to the unit interval.
    pub fn micro_variation_intensity(self, intensity: i64) -> (builder: Self)
        ensures
            builder.pending() == (AuthenticityConfig {
                micro_variation_intensity: clamp_unit_spec(intensity as int) as u64,
                ..self.pending()
            }),
            builder.pending().in_range(),
    {
        proof {
            use_type_invariant(&self);
        }
        let mut config = self.config;
        config.micro_variation_intensity = clamp_unit(intensity);
        AuthenticityConfigBuilder { config }
    }

    /// Set the adaptation rate, limited to the unit interval.
    pub fn adaptation_rate(self, rate: i64) -> (builder: Self)
        ensures
            builder.pending() == (AuthenticityConfig {
                adaptation_rate: clamp_unit_spec(rate as int) as u64,
                ..self.pending()
            }),
            builder.pending().in_range(),
    {
        proof {
            use_type_invariant(&self);
        }
        let mut config = self.config;
        config.adaptation_rate = clamp_unit(rate);
        AuthenticityConfigBuilder { config }
    }

    /// The accumulated configuration.
    pub fn build(self) -> (config: AuthenticityConfig)
        ensures
            config == self.pending(),
            config.in_range(),
    {
        proof {
            use_type_invariant(&self);
        }
        self.config
    }
}

impl Default for AuthenticityConfigBuilder {
    fn default() -> (builder: Self)
        ensures
            builder.pending() == default_config(),
    {
        AuthenticityConfigBuilder::new()
    }
}

/// The score of a content against one pattern of the library.
#[derive(Debug)]
pub struct PatternScore {
    /// The name of the pattern.
    pub name: String,
    /// The score, in millionths.
    pub score: u64,
}

/// The mathematical value of a `PatternScore`.
pub ghost struct PatternScoreView {
    /// The name of the pattern.
    pub name: Seq<char>,
    /// The score, in millionths.
    pub score: u64,
}

impl View for PatternScore {
    type V = PatternScoreView;

    open spec fn view(&self) -> PatternScoreView {
        PatternScoreView { name: self.name@, score: self.score }
    }
}

/// The outcome of one validation.
#[derive(Debug)]
pub struct AuthenticityValidation {
    /// The authenticity score, in the unit interval.
    pub authenticity_score: u64,
    /// The confidence in the score, from a tenth to one.
    pub confidence: u64,
    /// The score against each pattern of the library, in library order.
    pub pattern_analysis: Vec<PatternScore>,
    /// When the validation was made, in milliseconds since the Unix epoch.
    pub timestamp: i64,
    /// The identifier of the validation.
    pub validation_id: u128,
}

/// The mathematical value of an `AuthenticityValidation`.
pub ghost struct ValidationView {
    /// The authenticity score.
    pub authenticity_score: u64,
    /// The confidence in the score.
    pub confidence: u64,
    /// The score against each pattern.
    pub pattern_analysis: Seq<PatternScoreView>,
    /// When the validation was made.
    pub timestamp: i64,
    /// The identifier of the validation.
    pub validation_id: u128,
}

impl View for AuthenticityValidation {
    type V = ValidationView;

    open spec fn view(&self) -> ValidationView {
        ValidationView {
            authenticity_score: self.authenticity_score,
            confidence: self.confidence,
            pattern_analysis: self.pattern_analysis@.map_values(|p: PatternScore| p@),
            timestamp: self.timestamp,
            validation_id: self.validation_id,
        }
    }
}

impl ValidationView {
    /// Whether the score and the confidence lie in their ranges.
    pub open spec fn in_range(&self) -> bool {
        &&& self.authenticity_score <= UNIT
        &&& MIN_CONFIDENCE <= self.confidence <= UNIT
    }
}

/// Copy a list of pattern scores.
pub fn copy_pattern_scores(scores: &Vec<PatternScore>) -> (copy: Vec<PatternScore>)
    ensures
        copy@.map_values(|p: PatternScore| p@) == scores@.map_values(|p: PatternScore| p@),
        copy@.len() == scores@.len(),
{
    let mut copy: Vec<PatternScore> = Vec::new();
    let mut i: usize = 0;
    while i < scores.len()
        invariant
            i <= scores.len(),
            copy@.len() == i,
            forall|k: int| 0 <= k < i ==> (#[trigger] copy@[k])@ == scores@[k]@,
        decreases scores.len() - i,
    {
        let entry = PatternScore { name: scores[i].name.clone(), score: scores[i].score };
        copy.push(entry);
        i += 1;
    }
    assert(copy@.map_values(|p: PatternScore| p@) =~= scores@.map_values(|p: PatternScore| p@));
    copy
}

impl AuthenticityValidation {
    /// An independent copy of this validation.
    pub fn duplicate(&self) -> (copy: Self)
        ensures
            copy@ == self@,
    {
        AuthenticityValidation {
            authenticity_score: self.authenticity_score,
            confidence: self.confidence,
            pattern_analysis: copy_pattern_scores(&self.pattern_analysis),
            timestamp: self.timestamp,
            validation_id: self.validation_id,
        }
    }
}

/// The authenticity scores of a history, oldest first.
pub open spec fn scores_of(history: Seq<ValidationView>) -> Seq<u64> {
    history.map_values(|v: ValidationView| v.authenticity_score)
}

/// The scores of the most recent validations of a history: the last ten,
/// or all where there are fewer.
pub open spec fn recent_scores(history: Seq<ValidationView>) -> Seq<u64> {
    if history.len() <= RECENT_WINDOW {
        scores_of(history)
    } else {
        scores_of(history).skip(history.len() - RECENT_WINDOW)
    }
}

/// The base score of a content: the mean of its three factors plus the
/// perturbation, limited to the unit interval.
pub open spec fn base_score_spec(length: int, complexity: int, entropy: int, perturbation: int) -> int {
    clamp_unit_spec(factor_mean(length, complexity, entropy) + perturbation)
}

/// The base score of a text with the given entropy factor and perturbation.
pub open spec fn content_base_score(content: &str, entropy: u64, perturbation: i64) -> int {
    base_score_spec(
        length_factor_spec(content.spec_bytes().len() as int),
        complexity_factor_spec(content@),
        entropy as int,
        perturbation as int,
    )
}

/// The mean of the three factors of a content, rounded down.
pub open spec fn factor_mean(length: int, complexity: int, entropy: int) -> int {
    (length + complexity + entropy) / 3
}

/// With factors in the unit interval and a perturbation of at most five
/// hundredths, the base score lies in the unit interval and within five
/// hundredths of the mean of the factors.
pub proof fn lemma_base_score_follows_factors(
    length: int,
    complexity: int,
    entropy: int,
    perturbation: int,
)
    requires
        0 <= length <= UNIT,
        0 <= complexity <= UNIT,
        0 <= entropy <= UNIT,
        -MAX_PERTURBATION <= perturbation <= MAX_PERTURBATION,
    ensures
        0 <= base_score_spec(length, complexity, entropy, perturbation) <= UNIT,
        0 <= factor_mean(length, complexity, entropy) <= UNIT,
        base_score_spec(length, complexity, entropy, perturbation) - factor_mean(
            length,
            complexity,
            entropy,
        ) <= MAX_PERTURBATION,
        factor_mean(length, complexity, entropy) - base_score_spec(
            length,
            complexity,
            entropy,
            perturbation,
        ) <= MAX_PERTURBATION,
{
}

/// The base score of every content with an entropy factor in the unit
/// interval and a perturbation of at most five hundredths lies in the unit
/// interval, within five hundredths of the mean of its three factors.
pub proof fn lemma_content_base_score_follows_factors(
    content: &str,
    entropy: u64,
    perturbation: i64,
)
    requires
        entropy <= UNIT,
        -MAX_PERTURBATION <= perturbation <= MAX_PERTURBATION,
    ensures
        0 <= content_base_score(content, entropy, perturbation) <= UNIT,
        content_base_score(content, entropy, perturbation) - factor_mean(
            length_factor_spec(content.spec_bytes().len() as int),
            complexity_factor_spec(content@),
            entropy as int,
        ) <= MAX_PERTURBATION,
        factor_mean(
            length_factor_spec(content.spec_bytes().len() as int),
            complexity_factor_spec(content@),
            entropy as int,
        ) - content_base_score(content, entropy, perturbation) <= MAX_PERTURBATION,
{
    lemma_factors_are_unit_scores(content);
    lemma_base_score_follows_factors(
        length_factor_spec(content.spec_bytes().len() as int),
        complexity_factor_spec(content@),
        entropy as int,
        perturbation as int,
    );
}

/// The drift correction from a recent mean score: its distance from the
/// neutral half, scaled by the adaptation rate and rounded toward zero.
pub open spec fn adjustment_from_mean(recent_mean: int, rate: int) -> int {
    if recent_mean >= UNIT / 2 {
        ((recent_mean - UNIT / 2) * rate) / (UNIT as int)
    } else {
        -(((UNIT / 2 - recent_mean) * rate) / (UNIT as int))
    }
}

/// The learning adjustment that a history and an adaptation rate give:
/// nothing for an empty history.
pub open spec fn learning_adjustment(history: Seq<ValidationView>, rate: u64) -> int {
    if history.len() == 0 {
        0
    } else {
        adjustment_from_mean(mean_of(recent_scores(history)), rate as int)
    }
}

/// The scores of a content of `len` bytes against every pattern of the
/// library, in library order.
pub open spec fn pattern_analysis_spec(len: int) -> Seq<PatternScoreView> {
    Seq::new(
        PATTERN_COUNT as nat,
        |i: int|
            PatternScoreView {
                name: library_name(i as usize),
                score: pattern_score_spec(len, library_values(i as usize)) as u64,
            },
    )
}

/// The confidence that a list of pattern scores gives: one minus their
/// standard deviation, times the share of the library they cover, limited
/// to the range from a tenth to one. A half for no scores.
pub open spec fn confidence_spec(scores: Seq<u64>) -> int {
    if scores.len() == 0 {
        UNIT as int / 2
    } else {
        clamp_int(
            ((UNIT - deviation_of(scores)) * scores.len()) / (PATTERN_COUNT as int),
            MIN_CONFIDENCE as int,
            UNIT as int,
        )
    }
}

/// The scores of a pattern analysis, in order.
pub open spec fn analysis_scores(analysis: Seq<PatternScoreView>) -> Seq<u64> {
    analysis.map_values(|p: PatternScoreView| p.score)
}

/// The validation that an engine with the given history and configuration
/// makes of a content, for one perturbation, instant and identifier.
pub open spec fn validation_spec(
    history: Seq<ValidationView>,
    config: AuthenticityConfig,
    content: &str,
    entropy: u64,
    perturbation: i64,
    timestamp: i64,
    validation_id: u128,
) -> ValidationView {
    let analysis = pattern_analysis_spec(content.spec_bytes().len() as int);
    ValidationView {
        authenticity_score: clamp_unit_spec(
            content_base_score(content, entropy, perturbation) + learning_adjustment(
                history,
                config.adaptation_rate,
            ),
        ) as u64,
        confidence: confidence_spec(analysis_scores(analysis)) as u64,
        pattern_analysis: analysis,
        timestamp,
        validation_id,
    }
}

/// Every validation is complete and in range, whatever it is made of: it
/// scores all twenty-seven patterns, its score lies in the unit interval,
/// and its confidence between a tenth and one.
pub proof fn lemma_validation_is_complete(
    history: Seq<ValidationView>,
    config: AuthenticityConfig,
    content: &str,
    entropy: u64,
    perturbation: i64,
    timestamp: i64,
    validation_id: u128,
)
    ensures
        validation_spec(
            history,
            config,
            content,
            entropy,
            perturbation,
            timestamp,
            validation_id,
        ).in_range(),
        validation_spec(
            history,
            config,
            content,
            entropy,
            perturbation,
            timestamp,
            validation_id,
        ).pattern_analysis.len() == PATTERN_COUNT,
{
}

/// A history after one more validation: the validation joins at the end,
/// and where that makes more than a thousand, the oldest hundred leave at
/// once.
pub open spec fn appended(history: Seq<ValidationView>, validation: ValidationView) -> Seq<
    ValidationView,
> {
    let grown = history.push(validation);
    if grown.len() > MAX_HISTORY {
        grown.skip(EVICTION_BATCH as int)
    } else {
        grown
    }
}

/// The views of a list of validations.
pub open spec fn views_of(history: Seq<AuthenticityValidation>) -> Seq<ValidationView> {
    history.map_values(|v: AuthenticityValidation| v@)
}

/// Whether every score of a history lies in the unit interval.
pub open spec fn scores_in_range(history: Seq<AuthenticityValidation>) -> bool {
    forall|i: int| 0 <= i < history.len() ==> (#[trigger] history[i]).authenticity_score <= UNIT
}

/// Append a validation to a history, evicting the oldest hundred where the
/// history would outgrow a thousand.
pub fn append_bounded(history: &mut Vec<AuthenticityValidation>, validation: AuthenticityValidation)
    ensures
        scores_in_range(old(history)@) && validation.authenticity_score <= UNIT
            ==> scores_in_range(final(history)@),
        views_of(final(history)@) == appended(views_of(old(history)@), validation@),
        old(history)@.len() <= MAX_HISTORY ==> final(history)@.len() <= MAX_HISTORY,
        old(history)@.len() < MAX_HISTORY ==> final(history)@.len() == old(history)@.len() + 1,
        old(history)@.len() == MAX_HISTORY ==> final(history)@.len() == MAX_HISTORY + 1
            - EVICTION_BATCH,
{
    let ghost before = history@;
    history.push(validation);
    assert(views_of(history@) =~= views_of(before).push(validation@));
    if history.len() > MAX_HISTORY {
        let ghost grown = history@;
        let mut kept = history.split_off(EVICTION_BATCH);
        assert(kept@ =~= grown.skip(EVICTION_BATCH as int));
        assert(views_of(kept@) =~= views_of(grown).skip(EVICTION_BATCH as int));
        core::mem::swap(history, &mut kept);
    }
}

/// Appending to a full history of a thousand leaves nine hundred and one
/// validations in one step.
pub proof fn lemma_eviction_is_batched(history: Seq<ValidationView>, validation: ValidationView)
    requires
        history.len() == MAX_HISTORY,
    ensures
        appended(history, validation).len() == 901,
        appended(history, validation) == history.skip(EVICTION_BATCH as int).push(validation),
{
    assert(history.push(validation).skip(EVICTION_BATCH as int) =~= history.skip(
        EVICTION_BATCH as int,
    ).push(validation));
}

/// A history within its limit stays within it, and loses nothing before it
/// holds a thousand.
pub proof fn lemma_history_stays_bounded(history: Seq<ValidationView>, validation: ValidationView)
    requires
        history.len() <= MAX_HISTORY,
    ensures
        appended(history, validation).len() <= MAX_HISTORY,
        history.len() < MAX_HISTORY ==> appended(history, validation) == history.push(validation),
        appended(history, validation).last() == validation,
{
}

/// Statistics over the scores of a whole history.
#[derive(Debug, Clone, Copy, PartialEq, Eq, Structural)]
pub struct ValidationStats {
    /// How many validations the history holds.
    pub total_validations: usize,
    /// The mean score, rounded down.
    pub mean_score: u64,
    /// The standard deviation of the scores.
    pub std_deviation: u64,
    /// The smallest score.
    pub min_score: u64,
    /// The largest score.
    pub max_score: u64,
}

/// The statistics of a non-empty history.
pub open spec fn stats_spec(history: Seq<ValidationView>) -> ValidationStats {
    let scores = scores_of(history);
    ValidationStats {
        total_validations: history.len() as usize,
        mean_score: mean_of(scores) as u64,
        std_deviation: deviation_of(scores) as u64,
        min_score: min_of(scores) as u64,
        max_score: max_of(scores) as u64,
    }
}

/// The pattern transform of an enhancement. The default one preserves the
/// text.
pub open spec fn with_pattern_variations(text: Seq<char>) -> Seq<char> {
    text
}

/// The temporal transform of an enhancement. The default one preserves the
/// text.
pub open spec fn with_temporal_variations(text: Seq<char>) -> Seq<char> {
    text
}

/// The micro-variation transform of an enhancement at a given intensity.
/// The default one preserves the text.
pub open spec fn with_micro_variations(text: Seq<char>, intensity: u64) -> Seq<char> {
    text
}

/// The output of the pattern stage: transformed where pattern variation is
/// enabled, else passed through.
pub open spec fn pattern_stage(config: AuthenticityConfig, text: Seq<char>) -> Seq<char> {
    if config.enable_pattern_variation {
        with_pattern_variations(text)
    } else {
        text
    }
}

/// The output of the temporal stage: transformed where temporal variation
/// is enabled, else passed through.
pub open spec fn temporal_stage(config: AuthenticityConfig, text: Seq<char>) -> Seq<char> {
    if config.enable_temporal_variation {
        with_temporal_variations(text)
    } else {
        text
    }
}

/// The output of the micro-variation stage: transformed where the
/// intensity is positive, else passed through.
pub open spec fn micro_stage(config: AuthenticityConfig, text: Seq<char>) -> Seq<char> {
    if config.micro_variation_intensity > 0 {
        with_micro_variations(text, config.micro_variation_intensity)
    } else {
        text
    }
}

/// The text an enhancement returns when the validated score is `score`:
/// the content itself where the score reaches the target, else the content
/// passed through the pattern, temporal and micro-variation stages in that
/// order.
pub open spec fn enhanced_spec(
    config: AuthenticityConfig,
    target: u64,
    score: u64,
    content: Seq<char>,
) -> Seq<char> {
    if score >= target {
        content
    } else {
        micro_stage(config, temporal_stage(config, pattern_stage(config, content)))
    }
}

/// The base score of a content from its entropy factor and a perturbation.
pub fn analyze_content_patterns(content: &str, entropy_factor: u64, perturbation: i64) -> (score:
    u64)
    ensures
        score as int == content_base_score(content, entropy_factor, perturbation),
        score <= UNIT,
{
    let length: u64 = length_factor(content);
    let complexity: u64 = complexity_factor(content);
    let sum: u128 = (length as u128) + (complexity as u128) + (entropy_factor as u128);
    let third: u128 = sum / 3;
    if perturbation >= 0 {
        let raised: u128 = third + (perturbation as u128);
        if raised > UNIT as u128 {
            UNIT
        } else {
            raised as u64
        }
    } else {
        let drop: u128 = (0 - (perturbation as i128)) as u128;
        if third < drop {
            0
        } else {
            let lowered: u128 = third - drop;
            if lowered > UNIT as u128 {
                UNIT
            } else {
                lowered as u64
            }
        }
    }
}

/// The confidence in a validation from its pattern scores.
pub fn calculate_confidence(pattern_scores: &Vec<PatternScore>) -> (confidence: u64)
    requires
        forall|i: int| 0 <= i < pattern_scores@.len() ==> (#[trigger] pattern_scores@[i]).score <= UNIT,
    ensures
        confidence as int == confidence_spec(
            analysis_scores(pattern_scores@.map_values(|p: PatternScore| p@)),
        ),
        pattern_scores@.len() > 0 ==> MIN_CONFIDENCE <= confidence <= UNIT,
{
    let ghost wanted = analysis_scores(pattern_scores@.map_values(|p: PatternScore| p@));
    if pattern_scores.len() == 0 {
        return UNIT / 2;
    }
    let mut scores: Vec<u64> = Vec::new();
    let mut i: usize = 0;
    while i < pattern_scores.len()
        invariant
            i <= pattern_scores.len(),
            scores@.len() == i,
            forall|k: int| 0 <= k < i ==> #[trigger] scores@[k] == pattern_scores@[k].score,
            forall|k: int|
                0 <= k < pattern_scores@.len() ==> (#[trigger] pattern_scores@[k]).score <= UNIT,
        decreases pattern_scores.len() - i,
    {
        scores.push(pattern_scores[i].score);
        i += 1;
    }
    assert(scores@ =~= wanted);
    assert(all_unit(scores@)) by {
        assert forall|k: int| 0 <= k < scores@.len() implies #[trigger] scores@[k] <= UNIT by {
            assert(pattern_scores@[k].score <= UNIT);
        }
    }
    let spread: u64 = deviation(&scores);
    let count: u128 = scores.len() as u128;
    assert((UNIT - spread) * count <= UNIT * usize::MAX) by (nonlinear_arith)
        requires
            0 <= UNIT - spread <= UNIT,
            0 <= count <= usize::MAX,
    ;
    let weighted: u128 = ((UNIT - spread) as u128) * count;
    let covered: u128 = weighted / (PATTERN_COUNT as u128);
    if covered < MIN_CONFIDENCE as u128 {
        MIN_CONFIDENCE
    } else if covered > UNIT as u128 {
        UNIT
    } else {
        covered as u64
    }
}

/// The core authenticity engine.
pub struct AuthenticityEngine {
    config: AuthenticityConfig,
    pattern_library: Vec<Pattern>,
    validation_history: Vec<AuthenticityValidation>,
}

impl AuthenticityEngine {
    #[verifier::type_invariant]
    spec fn well_formed(self) -> bool {
        &&& self.config.in_range()
        &&& is_pattern_library(self.pattern_library@)
        &&& self.validation_history@.len() <= MAX_HISTORY
        &&& scores_in_range(self.validation_history@)
    }

    /// The configuration in force.
    pub closed spec fn spec_config(&self) -> AuthenticityConfig {
        self.config
    }

    /// The retained validations, oldest first.
    pub closed spec fn spec_history(&self) -> Seq<ValidationView> {
        views_of(self.validation_history@)
    }

    /// Create an engine with an empty history. Numeric fields of the
    /// configuration are limited to the unit interval.
    pub fn new(config: AuthenticityConfig) -> (engine: Self)
        ensures
            engine.spec_config() == config.clamped(),
            engine.spec_history() == Seq::<ValidationView>::empty(),
    {
        let engine = AuthenticityEngine {
            config: config.normalized(),
            pattern_library: initialize_pattern_library(),
            validation_history: Vec::new(),
        };
        assert(views_of(engine.validation_history@) =~= Seq::<ValidationView>::empty());
        engine
    }

    /// How many validations the history holds.
    pub fn validation_count(&self) -> (count: usize)
        ensures
            count == self.spec_history().len(),
            count <= MAX_HISTORY,
    {
        proof {
            use_type_invariant(self);
        }
        self.validation_history.len()
    }

    /// Score the content against every pattern of the library.
    pub fn analyze_behavioral_patterns(&self, content: &str) -> (scores: Vec<PatternScore>)
        ensures
            scores@.map_values(|p: PatternScore| p@) == pattern_analysis_spec(
                content.spec_bytes().len() as int,
            ),
            forall|i: int| 0 <= i < scores@.len() ==> (#[trigger] scores@[i]).score <= UNIT,
    {
        proof {
            use_type_invariant(self);
        }
        let ghost len = content.spec_bytes().len() as int;
        let mut scores: Vec<PatternScore> = Vec::new();
        let mut i: usize = 0;
        while i < self.pattern_library.len()
            invariant
                i <= self.pattern_library@.len(),
                is_pattern_library(self.pattern_library@),
                len == content.spec_bytes().len(),
                scores@.len() == i,
                forall|k: int|
                    0 <= k < i ==> (#[trigger] scores@[k])@ == pattern_analysis_spec(len)[k]
                        && scores@[k].score <= UNIT,
            decreases self.pattern_library.len() - i,
        {
            let pattern = &self.pattern_library[i];
            let score: u64 = calculate_pattern_score(content, pattern.values.as_slice());
            scores.push(PatternScore { name: pattern.name.clone(), score });
            i += 1;
        }
        assert(scores@.map_values(|p: PatternScore| p@) =~= pattern_analysis_spec(len));
        scores
    }

    /// The scores of the most recent validations.
    fn recent(&self) -> (scores: Vec<u64>)
        ensures
            scores@ == recent_scores(self.spec_history()),
            all_unit(scores@),
    {
        proof {
            use_type_invariant(self);
        }
        let total: usize = self.validation_history.len();
        let start: usize = if total > RECENT_WINDOW {
            total - RECENT_WINDOW
        } else {
            0
        };
        let mut scores: Vec<u64> = Vec::new();
        let mut i: usize = start;
        while i < total
            invariant
                start <= i <= total,
                total == self.validation_history@.len(),
                scores@.len() == i - start,
                forall|k: int|
                    0 <= k < i - start ==> #[trigger] scores@[k] == self.validation_history@[start
                        + k].authenticity_score,
                forall|k: int|
                    0 <= k < self.validation_history@.len() ==> (
                    #[trigger] self.validation_history@[k]).authenticity_score <= UNIT,
            decreases total - i,
        {
            scores.push(self.validation_history[i].authenticity_score);
            i += 1;
        }
        assert(scores@ =~= recent_scores(self.spec_history()));
        assert(all_unit(scores@)) by {
            assert forall|k: int| 0 <= k < scores@.len() implies #[trigger] scores@[k] <= UNIT by {
                assert(self.validation_history@[start + k].authenticity_score <= UNIT);
            }
        }
        scores
    }

    /// The scores of the whole history, oldest first.
    fn all_scores(&self) -> (scores: Vec<u64>)
        ensures
            scores@ == scores_of(self.spec_history()),
            all_unit(scores@),
    {
        proof {
            use_type_invariant(self);
        }
        let mut scores: Vec<u64> = Vec::new();
        let mut i: usize = 0;
        while i < self.validation_history.len()
            invariant
                i <= self.validation_history@.len(),
                scores@.len() == i,
                forall|k: int|
                    0 <= k < i ==> #[trigger] scores@[k]
                        == self.validation_history@[k].authenticity_score,
                forall|k: int|
                    0 <= k < self.validation_history@.len() ==> (
                    #[trigger] self.validation_history@[k]).authenticity_score <= UNIT,
            decreases self.validation_history.len() - i,
        {
            scores.push(self.validation_history[i].authenticity_score);
            i += 1;
        }
        assert(scores@ =~= scores_of(self.spec_history()));
        assert(all_unit(scores@)) by {
            assert forall|k: int| 0 <= k < scores@.len() implies #[trigger] scores@[k] <= UNIT by {
                assert(self.validation_history@[k].authenticity_score <= UNIT);
            }
        }
        scores
    }

    /// Correct a base score by the drift of the recent history: the mean
    /// of the most recent scores, less a half, times the adaptation rate.
    /// The result is not limited to the unit interval.
    pub fn apply_learning_adjustments(&self, base_score: u64) -> (adjusted: i64)
        requires
            base_score <= UNIT,
        ensures
            adjusted as int == base_score + learning_adjustment(
                self.spec_history(),
                self.spec_config().adaptation_rate,
            ),
            self.spec_history().len() == 0 ==> adjusted == base_score,
            -(UNIT as int) <= adjusted <= 2 * UNIT,
    {
        proof {
            use_type_invariant(self);
        }
        if self.validation_history.len() == 0 {
            return base_score as i64;
        }
        let recent = self.recent();
        let recent_mean: u64 = mean(&recent);
        let rate: u64 = self.config.adaptation_rate;
        let half: u64 = UNIT / 2;
        if recent_mean >= half {
            assert((recent_mean - half) * rate <= UNIT * UNIT) by (nonlinear_arith)
                requires
                    0 <= recent_mean - half <= UNIT,
                    0 <= rate <= UNIT,
            ;
            let lift: u64 = ((recent_mean - half) * rate) / UNIT;
            assert(lift <= UNIT) by (nonlinear_arith)
                requires
                    lift == ((recent_mean - half) * rate) / (UNIT as int),
                    0 <= recent_mean - half <= UNIT,
                    0 <= rate <= UNIT,
                    UNIT == 1_000_000,
            ;
            (base_score + lift) as i64
        } else {
            assert((half - recent_mean) * rate <= UNIT * UNIT) by (nonlinear_arith)
                requires
                    0 <= half - recent_mean <= UNIT,
                    0 <= rate <= UNIT,
            ;
            let fall: u64 = ((half - recent_mean) * rate) / UNIT;
            assert(fall <= UNIT) by (nonlinear_arith)
                requires
                    fall == ((half - recent_mean) * rate) / (UNIT as int),
                    0 <= half - recent_mean <= UNIT,
                    0 <= rate <= UNIT,
                    UNIT == 1_000_000,
            ;
            (base_score as i64) - (fall as i64)
        }
    }

    /// Statistics over the scores of the whole retained history; `None`
    /// where the history is empty.
    pub fn get_validation_stats(&self) -> (stats: Option<ValidationStats>)
        ensures
            self.spec_history().len() == 0 ==> stats is None,
            self.spec_history().len() > 0 ==> stats == Some(stats_spec(self.spec_history())),
    {
        proof {
            use_type_invariant(self);
        }
        if self.validation_history.len() == 0 {
            return None;
        }
        let scores = self.all_scores();
        Some(
            ValidationStats {
                total_validations: scores.len(),
                mean_score: mean(&scores),
                std_deviation: deviation(&scores),
                min_score: smallest(&scores),
                max_score: largest(&scores),
            },
        )
    }

    /// Replace the configuration. Numeric fields are limited to the unit
    /// interval.
    pub fn update_config(&mut self, config: AuthenticityConfig)
        ensures
            final(self).spec_config() == config.clamped(),
            final(self).spec_history() == old(self).spec_history(),
    {
        proof {
            use_type_invariant(&*self);
        }
        self.config = config.normalized();
    }

    /// The configuration in force.
    pub fn get_config(&self) -> (config: &AuthenticityConfig)
        ensures
            *config == self.spec_config(),
            config.in_range(),
    {
        proof {
            use_type_invariant(self);
        }
        &self.config
    }
}

/// The default pattern transform: the text unchanged.
fn add_pattern_variations(content: &str) -> (text: String)
    ensures
        text@ == with_pattern_variations(content@),
{
    String::from_str(content)
}

/// The default micro-variation transform: the text unchanged, whatever the
/// intensity.
fn add_micro_variations(content: &str, intensity: u64) -> (text: String)
    ensures
        text@ == with_micro_variations(content@, intensity),
{
    String::from_str(content)
}

/// The target an enhancement aims for: the explicit one, else the
/// configured one.
pub open spec fn effective_target(config: AuthenticityConfig, target_score: Option<u64>) -> u64 {
    match target_score {
        Some(target) => target,
        None => config.target_score,
    }
}

impl AuthenticityEngine {
    /// The pattern stage: varies patterns where the configuration enables
    /// it, else passes the text through.
    fn apply_pattern_enhancements(&self, content: &str) -> (text: String)
        ensures
            text@ == pattern_stage(self.spec_config(), content@),
    {
        if self.config.enable_pattern_variation {
            add_pattern_variations(content)
        } else {
            String::from_str(content)
        }
    }

    /// The temporal transform, for a configuration that enables it.
    fn apply_temporal_variations(&self, content: &str) -> (text: String)
        ensures
            text@ == with_temporal_variations(content@),
    {
        String::from_str(content)
    }

    /// The micro-variation stage: varies the text where the configured
    /// intensity is positive, else passes it through.
    fn apply_micro_variations(&self, content: &str) -> (text: String)
        ensures
            text@ == micro_stage(self.spec_config(), content@),
    {
        let intensity: u64 = self.config.micro_variation_intensity;
        if intensity > 0 {
            add_micro_variations(content, intensity)
        } else {
            String::from_str(content)
        }
    }

    /// Validate a content for one given perturbation, instant and
    /// identifier, and append the validation to the history.
    pub fn validate_with(
        &mut self,
        content: &str,
        entropy_factor: u64,
        perturbation: i64,
        timestamp: i64,
        validation_id: u128,
    ) -> (validation: AuthenticityValidation)
        ensures
            validation@ == validation_spec(
                old(self).spec_history(),
                old(self).spec_config(),
                content,
                entropy_factor,
                perturbation,
                timestamp,
                validation_id,
            ),
            validation@.in_range(),
            final(self).spec_history() == appended(old(self).spec_history(), validation@),
            final(self).spec_config() == old(self).spec_config(),
    {
        proof {
            use_type_invariant(&*self);
        }
        let base: u64 = analyze_content_patterns(content, entropy_factor, perturbation);
        let pattern_scores = self.analyze_behavioral_patterns(content);
        let confidence: u64 = calculate_confidence(&pattern_scores);
        let adjusted: i64 = self.apply_learning_adjustments(base);
        let validation = AuthenticityValidation {
            authenticity_score: clamp_unit(adjusted),
            confidence,
            pattern_analysis: pattern_scores,
            timestamp,
            validation_id,
        };
        let stored = validation.duplicate();
        let mut history: Vec<AuthenticityValidation> = Vec::new();
        core::mem::swap(&mut self.validation_history, &mut history);
        append_bounded(&mut history, stored);
        self.validation_history = history;
        validation
    }

    /// Validate a content: score it, rate the confidence, apply the
    /// learning adjustment and append the validation to the history. The
    /// perturbation is drawn at random from the range of five hundredths
    /// either way, the instant is read from the clock, and the identifier
    /// is freshly generated.
    pub fn validate_authenticity(&mut self, content: &str, entropy_factor: u64) -> (result: Result<
        AuthenticityValidation,
        AegntError,
    >)
        ensures
            result is Ok,
            result->Ok_0@.in_range(),
            result->Ok_0@.pattern_analysis == pattern_analysis_spec(
                content.spec_bytes().len() as int,
            ),
            result->Ok_0.confidence as int == confidence_spec(
                analysis_scores(pattern_analysis_spec(content.spec_bytes().len() as int)),
            ),
            is_random_identifier(result->Ok_0.validation_id),
            exists|perturbation: i64|
                -MAX_PERTURBATION <= perturbation <= MAX_PERTURBATION && result->Ok_0@
                    == #[trigger] validation_spec(
                    old(self).spec_history(),
                    old(self).spec_config(),
                    content,
                    entropy_factor,
                    perturbation,
                    result->Ok_0.timestamp,
                    result->Ok_0.validation_id,
                ),
            final(self).spec_history() == appended(old(self).spec_history(), result->Ok_0@),
            final(self).spec_config() == old(self).spec_config(),
    {
        let ghost history = self.spec_history();
        let ghost config = self.spec_config();
        let draw: u64 = random_below(2 * (MAX_PERTURBATION as u64) + 1);
        let perturbation: i64 = (draw as i64) - MAX_PERTURBATION;
        let timestamp: i64 = utc_now_millis();
        let validation_id: u128 = new_identifier();
        let validation = self.validate_with(
            content,
            entropy_factor,
            perturbation,
            timestamp,
            validation_id,
        );
        let result = Ok(validation);
        assert(result->Ok_0@ == validation_spec(
            history,
            config,
            content,
            entropy_factor,
            perturbation,
            result->Ok_0.timestamp,
            result->Ok_0.validation_id,
        ));
        result
    }

    /// Enhance a content toward a target score. The content is validated;
    /// where its score reaches the target it is returned as it is, else it
    /// passes through the pattern, temporal and micro-variation stages in
    /// that order, each gated by the configuration.
    pub fn enhance_authenticity(
        &mut self,
        content: &str,
        entropy_factor: u64,
        target_score: Option<u64>,
    ) -> (result: Result<String, AegntError>)
        ensures
            result is Ok,
            final(self).spec_config() == old(self).spec_config(),
            final(self).spec_history().len() > 0,
            final(self).spec_history() == appended(
                old(self).spec_history(),
                final(self).spec_history().last(),
            ),
            final(self).spec_history().last().in_range(),
            exists|perturbation: i64|
                -MAX_PERTURBATION <= perturbation <= MAX_PERTURBATION
                    && final(self).spec_history().last() == #[trigger] validation_spec(
                    old(self).spec_history(),
                    old(self).spec_config(),
                    content,
                    entropy_factor,
                    perturbation,
                    final(self).spec_history().last().timestamp,
                    final(self).spec_history().last().validation_id,
                ),
            result->Ok_0@ == enhanced_spec(
                old(self).spec_config(),
                effective_target(old(self).spec_config(), target_score),
                final(self).spec_history().last().authenticity_score,
                content@,
            ),
            result->Ok_0@ == content@,
    {
        let target: u64 = match target_score {
            Some(target) => target,
            None => self.config.target_score,
        };
        let ghost before = self.spec_history();
        let ghost config = self.spec_config();
        let current = match self.validate_authenticity(content, entropy_factor) {
            Ok(validation) => validation,
            Err(error) => {
                return Err(error);
            },
        };
        proof {
            lemma_last_of_appended(before, current@);
            let drawn = choose|perturbation: i64|
                -MAX_PERTURBATION <= perturbation <= MAX_PERTURBATION && current@
                    == #[trigger] validation_spec(
                    before,
                    config,
                    content,
                    entropy_factor,
                    perturbation,
                    current.timestamp,
                    current.validation_id,
                );
            let last = self.spec_history().last();
            assert(last == validation_spec(
                before,
                config,
                content,
                entropy_factor,
                drawn,
                last.timestamp,
                last.validation_id,
            ));
        }
        if current.authenticity_score >= target {
            return Ok(String::from_str(content));
        }
        let patterned = self.apply_pattern_enhancements(content);
        let timed = if self.config.enable_temporal_variation {
            self.apply_temporal_variations(patterned.as_str())
        } else {
            patterned
        };
        let varied = self.apply_micro_variations(timed.as_str());
        Ok(varied)
    }
}

/// The validation appended last is the last of the history.
pub proof fn lemma_last_of_appended(history: Seq<ValidationView>, validation: ValidationView)
    ensures
        appended(history, validation).len() > 0,
        appended(history, validation).last() == validation,
{
}

} // verus!
