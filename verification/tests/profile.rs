use aegnt_27::authenticity::{AuthenticityConfig, AuthenticityValidation};
use aegnt_27::profile::{find_entry, lookup, upsert, Entry, UserProfile};

fn validation(score: u64, id: u128) -> AuthenticityValidation {
    AuthenticityValidation {
        authenticity_score: score,
        confidence: 500_000,
        pattern_analysis: Vec::new(),
        timestamp: 0,
        validation_id: id,
    }
}

#[test]
fn new_profile_is_empty_and_stamped() {
    let profile = UserProfile::new(7, AuthenticityConfig::default());
    assert_eq!(profile.user_id, 7);
    assert_eq!(profile.config, AuthenticityConfig::default());
    assert!(profile.preferences.is_empty());
    assert!(profile.learning_data.is_empty());
    assert!(profile.model_weights.is_empty());
    assert!(profile.validation_history.is_empty());
    assert_eq!(profile.created_at, profile.updated_at);
    assert!(profile.created_at > 1_577_836_800_000);
    let fixed = UserProfile::new_at(8, AuthenticityConfig::default(), 1234);
    assert_eq!(fixed.created_at, 1234);
    assert_eq!(fixed.updated_at, 1234);
}

#[test]
fn touching_moves_only_the_update_time() {
    let mut profile = UserProfile::new_at(1, AuthenticityConfig::default(), 10);
    profile.touch_at(99);
    assert_eq!(profile.updated_at, 99);
    assert_eq!(profile.created_at, 10);
    profile.touch();
    assert!(profile.updated_at > 1_577_836_800_000);
    assert_eq!(profile.created_at, 10);
}

#[test]
fn learning_data_is_stored_by_key() {
    let mut profile = UserProfile::new_at(1, AuthenticityConfig::default(), 10);
    profile.update_learning_data(String::from("x"), 0.4f64.to_bits());
    profile.update_learning_data(String::from("y"), (-5.0f64).to_bits());
    assert_eq!(profile.get_learning_data("x").map(f64::from_bits), Some(0.4));
    assert_eq!(profile.get_learning_data("y").map(f64::from_bits), Some(-5.0));
    assert_eq!(profile.get_learning_data("z"), None);
    profile.update_learning_data(String::from("x"), 1.0f64.to_bits());
    assert_eq!(profile.get_learning_data("x").map(f64::from_bits), Some(1.0));
    assert_eq!(profile.get_learning_data("y").map(f64::from_bits), Some(-5.0));
    assert_eq!(profile.learning_data.len(), 2);
    assert!(profile.updated_at > 10);
}

#[test]
fn preferences_are_stored_by_key() {
    let mut profile = UserProfile::new_at(1, AuthenticityConfig::default(), 10);
    assert_eq!(profile.get_preference("theme"), None);
    profile.set_preference(String::from("theme"), String::from("\"dark\""));
    profile.set_preference(String::from("size"), String::from("12"));
    assert_eq!(profile.get_preference("theme"), Some(&String::from("\"dark\"")));
    profile.set_preference(String::from("theme"), String::from("\"light\""));
    assert_eq!(profile.get_preference("theme"), Some(&String::from("\"light\"")));
    assert_eq!(profile.get_preference("size"), Some(&String::from("12")));
    assert_eq!(profile.preferences.len(), 2);
}

#[test]
fn model_weights_are_stored_by_name() {
    let mut profile = UserProfile::new_at(1, AuthenticityConfig::default(), 10);
    profile.update_model_weights(String::from("m"), vec![1, 2, 3]);
    profile.update_model_weights(String::from("n"), vec![]);
    profile.update_model_weights(String::from("m"), vec![9]);
    assert_eq!(lookup(&profile.model_weights, "m"), Some(&vec![9]));
    assert_eq!(lookup(&profile.model_weights, "n"), Some(&vec![]));
    assert_eq!(profile.model_weights.len(), 2);
}

#[test]
fn profile_history_evicts_a_hundred_at_once() {
    let mut profile = UserProfile::new_at(1, AuthenticityConfig::default(), 10);
    for i in 0..1000u128 {
        profile.add_validation(validation(0, i));
    }
    assert_eq!(profile.validation_history.len(), 1000);
    profile.add_validation(validation(0, 1000));
    assert_eq!(profile.validation_history.len(), 901);
    assert_eq!(profile.validation_history[0].validation_id, 100);
    assert_eq!(profile.validation_history[900].validation_id, 1000);
}

#[test]
fn entries_keep_their_place_when_replaced() {
    let mut entries: Vec<Entry<u8>> = Vec::new();
    upsert(&mut entries, String::from("a"), 1);
    upsert(&mut entries, String::from("b"), 2);
    upsert(&mut entries, String::from("a"), 3);
    assert_eq!(entries.len(), 2);
    assert_eq!(find_entry(&entries, "a"), Some(0));
    assert_eq!(find_entry(&entries, "b"), Some(1));
    assert_eq!(find_entry(&entries, "c"), None);
    assert_eq!(lookup(&entries, "a"), Some(&3));
}
