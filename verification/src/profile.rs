//! The per-user profile: preferences, learning data, model weights and a
//! bounded validation history, each change stamped with its time.

use vstd::prelude::*;
use vstd::string::*;
use crate::authenticity::{
    append_bounded,
    appended,
    views_of,
    AuthenticityConfig,
    AuthenticityValidation,
    ValidationView,
    MAX_HISTORY,
};
use crate::platform::utc_now_millis;

verus! {

/// A value stored under a text key.
#[derive(Debug)]
pub struct Entry<V> {
    /// The key.
    pub key: String,
    /// The value.
    pub value: V,
}

/// The first position of `key` among the entries, where it occurs.
pub open spec fn position<V>(entries: Seq<Entry<V>>, key: Seq<char>) -> Option<int>
    decreases entries.len(),
{
    if entries.len() == 0 {
        None
    } else {
        match position(entries.drop_last(), key) {
            Some(i) => Some(i),
            None => if entries.last().key@ == key {
                Some(entries.len() - 1)
            } else {
                None
            },
        }
    }
}

/// The value stored under `key`, where there is one.
pub open spec fn stored<V>(entries: Seq<Entry<V>>, key: Seq<char>) -> Option<V> {
    match position(entries, key) {
        Some(i) => Some(entries[i].value),
        None => None,
    }
}

/// Whether no key occurs twice among the entries.
pub open spec fn distinct_keys<V>(entries: Seq<Entry<V>>) -> bool {
    forall|i: int, j: int|
        0 <= i < j < entries.len() ==> (#[trigger] entries[i]).key@ != (#[trigger] entries[j]).key@
}

/// Whether `after` is `before` with `value` stored under `key`: in place
/// of the value that the key had, or as a new last entry.
pub open spec fn is_upsert<V>(
    before: Seq<Entry<V>>,
    after: Seq<Entry<V>>,
    key: Seq<char>,
    value: V,
) -> bool {
    match position(before, key) {
        Some(at) => {
            &&& after.len() == before.len()
            &&& after[at].key@ == key
            &&& after[at].value == value
            &&& forall|i: int| 0 <= i < before.len() && i != at ==> after[i] == before[i]
        },
        None => {
            &&& after.len() == before.len() + 1
            &&& after.last().key@ == key
            &&& after.last().value == value
            &&& forall|i: int| 0 <= i < before.len() ==> after[i] == before[i]
        },
    }
}

/// What `position` finds: the first entry with the key, or that no entry
/// has it.
pub proof fn lemma_position<V>(entries: Seq<Entry<V>>, key: Seq<char>)
    ensures
        match position(entries, key) {
            Some(at) => {
                &&& 0 <= at < entries.len()
                &&& entries[at].key@ == key
                &&& forall|i: int| 0 <= i < at ==> (#[trigger] entries[i]).key@ != key
            },
            None => forall|i: int| 0 <= i < entries.len() ==> (#[trigger] entries[i]).key@ != key,
        },
    decreases entries.len(),
{
    if entries.len() > 0 {
        let head = entries.drop_last();
        lemma_position(head, key);
        match position(head, key) {
            Some(at) => {
                assert(entries[at] == head[at]);
                assert forall|i: int| 0 <= i < at implies (#[trigger] entries[i]).key@ != key by {
                    assert(entries[i] == head[i]);
                }
            },
            None => {
                assert forall|i: int| 0 <= i < entries.len() - 1 implies (
                #[trigger] entries[i]).key@ != key by {
                    assert(entries[i] == head[i]);
                }
            },
        }
    }
}

/// After storing a value under a key, the key holds that value, every
/// other key holds what it held, and distinct keys stay distinct.
pub proof fn lemma_upsert<V>(
    before: Seq<Entry<V>>,
    after: Seq<Entry<V>>,
    key: Seq<char>,
    value: V,
    other: Seq<char>,
)
    requires
        is_upsert(before, after, key, value),
    ensures
        stored(after, key) == Some(value),
        other != key ==> stored(after, other) == stored(before, other),
        distinct_keys(before) ==> distinct_keys(after),
{
    lemma_position(before, key);
    lemma_position(after, key);
    lemma_position(before, other);
    lemma_position(after, other);
    match position(before, key) {
        Some(at) => {
            assert forall|i: int| 0 <= i < at implies (#[trigger] after[i]).key@ != key by {
                assert(after[i] == before[i]);
            }
            if position(after, key) != Some(at) {
                let found = position(after, key)->Some_0;
                if found > at {
                    assert(after[at].key@ == key);
                }
            }
            if other != key {
                match position(before, other) {
                    Some(there) => {
                        assert(after[there] == before[there]);
                        match position(after, other) {
                            Some(here) => {
                                if here < there {
                                    assert(after[here] == before[here]);
                                } else if there < here {
                                    assert(after[there].key@ == other);
                                }
                            },
                            None => {
                                assert(after[there].key@ == other);
                            },
                        }
                    },
                    None => {
                        if position(after, other) is Some {
                            let here = position(after, other)->Some_0;
                            assert(after[here] == before[here]);
                        }
                    },
                }
            }
            if distinct_keys(before) {
                assert forall|i: int, j: int| 0 <= i < j < after.len() implies (
                #[trigger] after[i]).key@ != (#[trigger] after[j]).key@ by {
                    assert(before[i].key@ != before[j].key@);
                    if i != at {
                        assert(after[i] == before[i]);
                    }
                    if j != at {
                        assert(after[j] == before[j]);
                    }
                }
            }
        },
        None => {
            let end = before.len() as int;
            assert forall|i: int| 0 <= i < end implies (#[trigger] after[i]).key@ != key by {
                assert(after[i] == before[i]);
            }
            if position(after, key) != Some(end) {
                match position(after, key) {
                    Some(found) => {
                        assert(after[found].key@ == key);
                    },
                    None => {
                        assert(after[end].key@ == key);
                    },
                }
            }
            if other != key {
                match position(before, other) {
                    Some(there) => {
                        assert(after[there] == before[there]);
                        match position(after, other) {
                            Some(here) => {
                                if here < there {
                                    assert(after[here] == before[here]);
                                } else if there < here {
                                    assert(after[there].key@ == other);
                                }
                            },
                            None => {
                                assert(after[there].key@ == other);
                            },
                        }
                    },
                    None => {
                        if position(after, other) is Some {
                            let here = position(after, other)->Some_0;
                            if here < end {
                                assert(after[here] == before[here]);
                            }
                        }
                    },
                }
            }
            if distinct_keys(before) {
                assert forall|i: int, j: int| 0 <= i < j < after.len() implies (
                #[trigger] after[i]).key@ != (#[trigger] after[j]).key@ by {
                    assert(after[i] == before[i]);
                    if j < end {
                        assert(after[j] == before[j]);
                        assert(before[i].key@ != before[j].key@);
                    }
                }
            }
        },
    }
}

/// Find the first entry with the given key.
pub fn find_entry<V>(entries: &Vec<Entry<V>>, key: &str) -> (found: Option<usize>)
    ensures
        match found {
            Some(at) => position(entries@, key@) == Some(at as int) && at < entries@.len(),
            None => position(entries@, key@) is None,
        },
{
    let wanted = String::from_str(key);
    let mut i: usize = 0;
    while i < entries.len()
        invariant
            i <= entries.len(),
            wanted@ == key@,
            forall|k: int| 0 <= k < i ==> (#[trigger] entries@[k]).key@ != key@,
        decreases entries.len() - i,
    {
        if entries[i].key == wanted {
            proof {
                lemma_position(entries@, key@);
            }
            return Some(i);
        }
        i += 1;
    }
    proof {
        lemma_position(entries@, key@);
    }
    None
}

/// Store a value under a key: in place of the value the key had, or as a
/// new last entry.
pub fn upsert<V>(entries: &mut Vec<Entry<V>>, key: String, value: V)
    ensures
        is_upsert(old(entries)@, final(entries)@, key@, value),
{
    match find_entry(entries, key.as_str()) {
        Some(at) => {
            entries.set(at, Entry { key, value });
        },
        None => {
            entries.push(Entry { key, value });
        },
    }
}

/// The value stored under a key, where there is one.
pub fn lookup<'a, V>(entries: &'a Vec<Entry<V>>, key: &str) -> (value: Option<&'a V>)
    ensures
        match value {
            Some(v) => stored(entries@, key@) == Some(*v),
            None => stored(entries@, key@) is None,
        },
{
    match find_entry(entries, key) {
        Some(at) => Some(&entries[at].value),
        None => None,
    }
}

/// The data kept for one user.
#[derive(Debug)]
pub struct UserProfile {
    /// The identifier of the user.
    pub user_id: u128,
    /// The preferences of the user, each a JSON text under its name.
    pub preferences: Vec<Entry<String>>,
    /// Learned quantities, each kept as the 64 bits of its binary
    /// representation and never interpreted here.
    pub learning_data: Vec<Entry<u64>>,
    /// The weights of each model, each weight kept as its 64 bits.
    pub model_weights: Vec<Entry<Vec<u64>>>,
    /// The validations of the user, oldest first, at most a thousand.
    pub validation_history: Vec<AuthenticityValidation>,
    /// The engine configuration of the user.
    pub config: AuthenticityConfig,
    /// When the profile was created, in milliseconds since the Unix epoch.
    pub created_at: i64,
    /// When the profile was last changed.
    pub updated_at: i64,
}

impl UserProfile {
    /// Whether the profile keeps its invariants: no key twice in any of
    /// its maps, and no more than a thousand validations.
    pub open spec fn well_formed(&self) -> bool {
        &&& distinct_keys(self.preferences@)
        &&& distinct_keys(self.learning_data@)
        &&& distinct_keys(self.model_weights@)
        &&& self.validation_history@.len() <= MAX_HISTORY
    }

    /// The retained validations, oldest first.
    pub open spec fn history(&self) -> Seq<ValidationView> {
        views_of(self.validation_history@)
    }

    /// Create an empty profile at the given instant.
    pub fn new_at(user_id: u128, config: AuthenticityConfig, now: i64) -> (profile: Self)
        ensures
            profile.user_id == user_id,
            profile.config == config,
            profile.preferences@.len() == 0,
            profile.learning_data@.len() == 0,
            profile.model_weights@.len() == 0,
            profile.validation_history@.len() == 0,
            profile.created_at == now,
            profile.updated_at == now,
            profile.well_formed(),
    {
        UserProfile {
            user_id,
            preferences: Vec::new(),
            learning_data: Vec::new(),
            model_weights: Vec::new(),
            validation_history: Vec::new(),
            config,
            created_at: now,
            updated_at: now,
        }
    }

    /// Create an empty profile, stamped with the current time.
    pub fn new(user_id: u128, config: AuthenticityConfig) -> (profile: Self)
        ensures
            profile.user_id == user_id,
            profile.config == config,
            profile.preferences@.len() == 0,
            profile.learning_data@.len() == 0,
            profile.model_weights@.len() == 0,
            profile.validation_history@.len() == 0,
            profile.created_at == profile.updated_at,
            profile.well_formed(),
    {
        UserProfile::new_at(user_id, config, utc_now_millis())
    }

    /// Whether `self` and `other` agree in everything but the time of the
    /// last change and the named part.
    pub open spec fn same_but(&self, other: &UserProfile, part: ProfilePart) -> bool {
        &&& self.user_id == other.user_id
        &&& self.config == other.config
        &&& self.created_at == other.created_at
        &&& part != ProfilePart::Preferences ==> self.preferences == other.preferences
        &&& part != ProfilePart::LearningData ==> self.learning_data == other.learning_data
        &&& part != ProfilePart::ModelWeights ==> self.model_weights == other.model_weights
        &&& part != ProfilePart::History ==> self.validation_history == other.validation_history
    }

    /// Stamp the profile with the given instant.
    pub fn touch_at(&mut self, now: i64)
        ensures
            final(self).updated_at == now,
            final(self).same_but(old(self), ProfilePart::Nothing),
    {
        self.updated_at = now;
    }

    /// Stamp the profile with the current time: what `touch_at` does with
    /// the reading of the clock. Nothing is promised of the reading, so
    /// only what holds of every reading is stated here.
    pub fn touch(&mut self)
        ensures
            final(self).same_but(old(self), ProfilePart::Nothing),
    {
        let now: i64 = utc_now_millis();
        self.touch_at(now);
    }

    /// Add a validation to the history, evicting the oldest hundred where
    /// the history would outgrow a thousand, and stamp the profile.
    pub fn add_validation(&mut self, validation: AuthenticityValidation)
        ensures
            final(self).history() == appended(old(self).history(), validation@),
            final(self).same_but(old(self), ProfilePart::History),
            old(self).well_formed() ==> final(self).well_formed(),
    {
        append_bounded(&mut self.validation_history, validation);
        self.touch();
    }

    /// Store a learned quantity under a key and stamp the profile.
    pub fn update_learning_data(&mut self, key: String, value: u64)
        ensures
            is_upsert(old(self).learning_data@, final(self).learning_data@, key@, value),
            stored(final(self).learning_data@, key@) == Some(value),
            final(self).same_but(old(self), ProfilePart::LearningData),
            old(self).well_formed() ==> final(self).well_formed(),
    {
        let ghost before = self.learning_data@;
        upsert(&mut self.learning_data, key, value);
        proof {
            lemma_upsert(before, self.learning_data@, key@, value, key@);
        }
        self.touch();
    }

    /// Store the weights of a model under its name and stamp the profile.
    pub fn update_model_weights(&mut self, model_name: String, weights: Vec<u64>)
        ensures
            is_upsert(old(self).model_weights@, final(self).model_weights@, model_name@, weights),
            stored(final(self).model_weights@, model_name@) == Some(weights),
            final(self).same_but(old(self), ProfilePart::ModelWeights),
            old(self).well_formed() ==> final(self).well_formed(),
    {
        let ghost before = self.model_weights@;
        upsert(&mut self.model_weights, model_name, weights);
        proof {
            lemma_upsert(before, self.model_weights@, model_name@, weights, model_name@);
        }
        self.touch();
    }

    /// Store a preference under a key and stamp the profile.
    pub fn set_preference(&mut self, key: String, value: String)
        ensures
            is_upsert(old(self).preferences@, final(self).preferences@, key@, value),
            stored(final(self).preferences@, key@) == Some(value),
            final(self).same_but(old(self), ProfilePart::Preferences),
            old(self).well_formed() ==> final(self).well_formed(),
    {
        let ghost before = self.preferences@;
        upsert(&mut self.preferences, key, value);
        proof {
            lemma_upsert(before, self.preferences@, key@, value, key@);
        }
        self.touch();
    }

    /// The preference stored under a key, where there is one.
    pub fn get_preference(&self, key: &str) -> (value: Option<&String>)
        ensures
            match value {
                Some(v) => stored(self.preferences@, key@) == Some(*v),
                None => stored(self.preferences@, key@) is None,
            },
    {
        lookup(&self.preferences, key)
    }

    /// The learned quantity stored under a key, where there is one.
    pub fn get_learning_data(&self, key: &str) -> (value: Option<u64>)
        ensures
            value == stored(self.learning_data@, key@),
    {
        match lookup(&self.learning_data, key) {
            Some(v) => Some(*v),
            None => None,
        }
    }
}

/// The parts of a profile that a change may touch.
#[derive(Debug, Clone, Copy, PartialEq, Eq, Structural)]
pub enum ProfilePart {
    /// No part but the time of the last change.
    Nothing,
    /// The preferences.
    Preferences,
    /// The learning data.
    LearningData,
    /// The model weights.
    ModelWeights,
    /// The validation history.
    History,
}

} // verus!
