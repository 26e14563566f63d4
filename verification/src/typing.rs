//! Keystroke sequences with a basic timing model.

use vstd::prelude::*;
use vstd::string::*;
use crate::metrics::chars_of;
use crate::platform::char_text;

verus! {

/// One keystroke.
#[derive(Debug)]
pub struct Keystroke {
    /// The character or key.
    pub key: String,
    /// When the key is struck, in milliseconds from the start.
    pub timing_ms: u64,
}

/// A text with the keystrokes that type it.
#[derive(Debug)]
pub struct TypingSequence {
    /// The text to type.
    pub text: String,
    /// The keystrokes, one per character, with their timing.
    pub keystrokes: Vec<Keystroke>,
    /// The total duration in milliseconds.
    pub total_duration_ms: u64,
}

/// The instant of the keystroke after `strokes` keystrokes: each stroke
/// comes a hundred milliseconds after the one before, plus the earlier
/// instant modulo fifty.
pub open spec fn timing_after(strokes: nat) -> nat
    decreases strokes,
{
    if strokes == 0 {
        0
    } else {
        let earlier = timing_after((strokes - 1) as nat);
        earlier + 100 + earlier % 50
    }
}

/// No stroke comes later than 149 milliseconds after the one before.
pub proof fn lemma_timing_bound(strokes: nat)
    ensures
        timing_after(strokes) <= 149 * strokes,
    decreases strokes,
{
    if strokes > 0 {
        lemma_timing_bound((strokes - 1) as nat);
    }
}

/// Whether `keystrokes` type `text` with the basic timing.
pub open spec fn types_text(keystrokes: Seq<Keystroke>, text: Seq<char>) -> bool {
    &&& keystrokes.len() == text.len()
    &&& forall|i: int|
        0 <= i < text.len() ==> (#[trigger] keystrokes[i]).key@ == seq![text[i]]
            && keystrokes[i].timing_ms == timing_after((i + 1) as nat)
}

impl TypingSequence {
    /// Create a typing sequence from a text: one keystroke per character.
    pub fn from_text(text: &str) -> (sequence: Self)
        requires
            149 * text@.len() <= u64::MAX,
        ensures
            sequence.text@ == text@,
            types_text(sequence.keystrokes@, text@),
            sequence.total_duration_ms == timing_after(text@.len()),
    {
        let chars = chars_of(text);
        let mut keystrokes: Vec<Keystroke> = Vec::new();
        let mut timing: u64 = 0;
        let mut i: usize = 0;
        while i < chars.len()
            invariant
                i <= chars.len(),
                chars@ == text@,
                149 * text@.len() <= u64::MAX,
                timing == timing_after(i as nat),
                types_text(keystrokes@, chars@.take(i as int)),
            decreases chars.len() - i,
        {
            proof {
                lemma_timing_bound((i + 1) as nat);
            }
            timing = timing + 100 + timing % 50;
            let ghost before = keystrokes@;
            let key = char_text(chars[i]);
            keystrokes.push(Keystroke { key, timing_ms: timing });
            proof {
                let after = keystrokes@;
                let typed = chars@.take(i + 1);
                assert forall|k: int| 0 <= k < typed.len() implies (#[trigger] after[k]).key@
                    == seq![typed[k]] && after[k].timing_ms == timing_after((k + 1) as nat) by {
                    if k < i {
                        assert(after[k] == before[k]);
                        assert(chars@.take(i as int)[k] == typed[k]);
                    }
                }
            }
            i += 1;
        }
        proof {
            assert(chars@.take(i as int) =~= chars@);
        }
        TypingSequence {
            text: String::from_str(text),
            keystrokes,
            total_duration_ms: timing,
        }
    }

    /// Create a typing sequence from a text, unless the text is too long
    /// for its timing to be counted in 64 bits.
    pub fn checked_from_text(text: &str) -> (sequence: Option<Self>)
        ensures
            149 * text@.len() <= u64::MAX ==> sequence is Some && sequence->Some_0.text@ == text@
                && types_text(sequence->Some_0.keystrokes@, text@)
                && sequence->Some_0.total_duration_ms == timing_after(text@.len()),
            149 * text@.len() > u64::MAX ==> sequence is None,
    {
        let strokes: usize = text.unicode_len();
        if strokes as u64 > u64::MAX / 149 {
            return None;
        }
        Some(TypingSequence::from_text(text))
    }
}

} // verus!
