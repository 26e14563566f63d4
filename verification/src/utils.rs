//! Small utilities: session identifiers, range validation, and the mean
//! of a list of factors.

use vstd::prelude::*;
use vstd::string::*;
use crate::error::{AegntError, ErrorKind};
use crate::platform::{epoch_reading, EpochReading};
use crate::stats::{mean_of, sum_of};
use crate::text::{decimal_digits, decimal_wide, signed_decimal, signed_digits};

verus! {

/// The session identifier of the instant `millis` milliseconds after the
/// Unix epoch.
pub open spec fn session_id_spec(millis: nat) -> Seq<char> {
    "aegnt_"@ + decimal_digits(millis)
}

/// The session identifier of a given instant.
pub fn session_id_at(millis: u128) -> (id: String)
    ensures
        id@ == session_id_spec(millis as nat),
{
    let mut id = String::from_str("aegnt_");
    id.append(decimal_wide(millis).as_str());
    id
}

/// The session identifier of a reading of the clock: that of its
/// milliseconds, and that of the epoch itself for a clock before it.
pub open spec fn session_id_of(reading: EpochReading) -> Seq<char> {
    match reading {
        EpochReading::Since(millis) => session_id_spec(millis as nat),
        EpochReading::Before => session_id_spec(0),
    }
}

/// The session identifier of a reading of the clock.
pub fn session_id_from(reading: EpochReading) -> (id: String)
    ensures
        id@ == session_id_of(reading),
{
    match reading {
        EpochReading::Since(millis) => session_id_at(millis),
        EpochReading::Before => session_id_at(0),
    }
}

/// Generate a session identifier from the current time in milliseconds
/// since the Unix epoch; a clock before the epoch counts as the epoch.
pub fn generate_session_id() -> (id: String)
    ensures
        exists|reading: EpochReading| id@ == #[trigger] session_id_of(reading),
{
    let reading: EpochReading = epoch_reading();
    let id = session_id_from(reading);
    assert(id@ == session_id_of(reading));
    id
}

/// The message of the error for a value outside its range.
pub open spec fn range_message(value: int, min: int, max: int, name: Seq<char>) -> Seq<char> {
    name + " must be between "@ + signed_digits(min) + " and "@ + signed_digits(max) + ", got "@
        + signed_digits(value)
}

/// Validate that a value lies in the closed range from `min` to `max`.
pub fn validate_range(value: i64, min: i64, max: i64, name: &str) -> (result: Result<(), AegntError>)
    ensures
        min <= value <= max ==> result is Ok,
        !(min <= value <= max) ==> result is Err && result->Err_0.spec_kind() == ErrorKind::Config
            && result->Err_0.detail() == range_message(value as int, min as int, max as int, name@),
{
    if value < min || value > max {
        let mut message = String::from_str(name);
        message.append(" must be between ");
        message.append(signed_decimal(min).as_str());
        message.append(" and ");
        message.append(signed_decimal(max).as_str());
        message.append(", got ");
        message.append(signed_decimal(value).as_str());
        return Err(AegntError::config(message.as_str()));
    }
    Ok(())
}

/// The sum of any factors is at most their number times the largest
/// representable factor.
pub proof fn lemma_sum_of_any(s: Seq<u64>)
    ensures
        0 <= sum_of(s) <= s.len() * u64::MAX,
    decreases s.len(),
{
    if s.len() > 0 {
        lemma_sum_of_any(s.drop_last());
        assert((s.len() - 1) * u64::MAX + u64::MAX == s.len() * u64::MAX) by (nonlinear_arith);
    }
}

/// The authenticity score of several factors: their mean, rounded down,
/// and zero for no factors.
pub fn calculate_authenticity_score(factors: &[u64]) -> (score: u64)
    ensures
        score as int == mean_of(factors@),
        factors@.len() == 0 ==> score == 0,
{
    if factors.len() == 0 {
        return 0;
    }
    let mut sum: u128 = 0;
    let mut i: usize = 0;
    while i < factors.len()
        invariant
            i <= factors.len(),
            sum as int == sum_of(factors@.take(i as int)),
        decreases factors.len() - i,
    {
        proof {
            assert(factors@.take(i + 1).drop_last() =~= factors@.take(i as int));
            lemma_sum_of_any(factors@.take(i as int));
            assert(i * u64::MAX + u64::MAX <= usize::MAX * u64::MAX + u64::MAX) by (nonlinear_arith)
                requires
                    i <= usize::MAX,
            ;
        }
        sum = sum + factors[i] as u128;
        i += 1;
    }
    proof {
        assert(factors@.take(i as int) =~= factors@);
        lemma_sum_of_any(factors@);
        let n = factors@.len() as int;
        let total = sum as int;
        assert(total / n <= u64::MAX) by (nonlinear_arith)
            requires
                0 <= total <= n * u64::MAX,
                n > 0,
        ;
    }
    (sum / (factors.len() as u128)) as u64
}

} // verus!
