use aegnt_27::config::AegntConfig;
use aegnt_27::typing::TypingSequence;

#[test]
fn typing_sequence_has_one_keystroke_per_character() {
    let sequence = TypingSequence::from_text("abc");
    assert_eq!(sequence.text, "abc");
    assert_eq!(sequence.keystrokes.len(), 3);
    assert_eq!(sequence.keystrokes[0].key, "a");
    assert_eq!(sequence.keystrokes[1].key, "b");
    assert_eq!(sequence.keystrokes[2].key, "c");
    assert_eq!(sequence.keystrokes[0].timing_ms, 100);
    assert_eq!(sequence.keystrokes[1].timing_ms, 200);
    assert_eq!(sequence.keystrokes[2].timing_ms, 300);
    assert_eq!(sequence.total_duration_ms, 300);
}

#[test]
fn typing_sequence_of_empty_text_is_empty() {
    let sequence = TypingSequence::from_text("");
    assert_eq!(sequence.text, "");
    assert!(sequence.keystrokes.is_empty());
    assert_eq!(sequence.total_duration_ms, 0);
}

#[test]
fn typing_sequence_counts_characters_not_bytes() {
    let sequence = TypingSequence::from_text("né");
    assert_eq!(sequence.keystrokes.len(), 2);
    assert_eq!(sequence.keystrokes[1].key, "é");
}

#[test]
fn default_configuration_enables_everything() {
    let config = AegntConfig::default();
    assert!(config.mouse_enabled);
    assert!(config.typing_enabled);
    assert!(config.audio_enabled);
    assert!(config.visual_enabled);
    assert!(config.detection_enabled);
    assert_eq!(config.authenticity_target, 950_000);
}

#[test]
fn checked_typing_sequence_agrees_on_ordinary_text() {
    let sequence = TypingSequence::checked_from_text("hello").unwrap();
    assert_eq!(sequence.keystrokes.len(), 5);
    assert_eq!(sequence.total_duration_ms, 500);
    assert_eq!(sequence.keystrokes[4].key, "o");
}
