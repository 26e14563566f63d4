//! Statistics over sequences of scores: sum, mean, standard deviation and
//! extremes, all in whole millionths.

use vstd::prelude::*;
use crate::fixed::{isqrt, sqrt_floor, UNIT};

verus! {

/// Whether every score of `s` lies in the unit interval.
pub open spec fn all_unit(s: Seq<u64>) -> bool {
    forall|i: int| 0 <= i < s.len() ==> #[trigger] s[i] <= UNIT
}

/// The sum of the scores of `s`.
pub open spec fn sum_of(s: Seq<u64>) -> int
    decreases s.len(),
{
    if s.len() == 0 {
        0
    } else {
        sum_of(s.drop_last()) + s.last()
    }
}

/// The mean of the scores of `s`, rounded down; zero for no scores.
pub open spec fn mean_of(s: Seq<u64>) -> int {
    if s.len() == 0 {
        0
    } else {
        sum_of(s) / (s.len() as int)
    }
}

/// The sum of the squared distances of the scores of `s` from `center`.
pub open spec fn square_deviations(s: Seq<u64>, center: int) -> int
    decreases s.len(),
{
    if s.len() == 0 {
        0
    } else {
        square_deviations(s.drop_last(), center) + (s.last() - center) * (s.last() - center)
    }
}

/// The standard deviation of the scores of `s` about their mean: the
/// integer square root of the mean squared distance. One for no scores.
pub open spec fn deviation_of(s: Seq<u64>) -> int {
    if s.len() == 0 {
        UNIT as int
    } else {
        sqrt_floor(square_deviations(s, mean_of(s)) / (s.len() as int))
    }
}

/// The smallest score of a non-empty `s`.
pub open spec fn min_of(s: Seq<u64>) -> int
    decreases s.len(),
{
    if s.len() <= 1 {
        if s.len() == 1 {
            s[0] as int
        } else {
            0
        }
    } else if s.last() < min_of(s.drop_last()) {
        s.last() as int
    } else {
        min_of(s.drop_last())
    }
}

/// The largest score of a non-empty `s`.
pub open spec fn max_of(s: Seq<u64>) -> int
    decreases s.len(),
{
    if s.len() <= 1 {
        if s.len() == 1 {
            s[0] as int
        } else {
            0
        }
    } else if s.last() > max_of(s.drop_last()) {
        s.last() as int
    } else {
        max_of(s.drop_last())
    }
}

/// The sum of unit scores is at most their number.
pub proof fn lemma_sum_bound(s: Seq<u64>)
    requires
        all_unit(s),
    ensures
        0 <= sum_of(s) <= s.len() * UNIT,
    decreases s.len(),
{
    if s.len() > 0 {
        assert(all_unit(s.drop_last())) by {
            assert forall|i: int| 0 <= i < s.drop_last().len() implies #[trigger] s.drop_last()[i]
                <= UNIT by {
                assert(s[i] <= UNIT);
            }
        }
        lemma_sum_bound(s.drop_last());
        assert(s[s.len() - 1] <= UNIT);
        assert((s.len() - 1) * UNIT + UNIT == s.len() * UNIT) by (nonlinear_arith);
    }
}

/// The mean of unit scores is a unit score.
pub proof fn lemma_mean_bound(s: Seq<u64>)
    requires
        all_unit(s),
    ensures
        0 <= mean_of(s) <= UNIT,
{
    lemma_sum_bound(s);
    if s.len() > 0 {
        let n = s.len() as int;
        let total = sum_of(s);
        assert(0 <= total / n <= UNIT) by (nonlinear_arith)
            requires
                0 <= total <= n * UNIT,
                n > 0,
        ;
    }
}

/// The squared distances of unit scores from a unit center sum to at most
/// their number.
pub proof fn lemma_square_deviations_bound(s: Seq<u64>, center: int)
    requires
        all_unit(s),
        0 <= center <= UNIT,
    ensures
        0 <= square_deviations(s, center) <= s.len() * (UNIT * UNIT),
    decreases s.len(),
{
    if s.len() > 0 {
        assert(all_unit(s.drop_last())) by {
            assert forall|i: int| 0 <= i < s.drop_last().len() implies #[trigger] s.drop_last()[i]
                <= UNIT by {
                assert(s[i] <= UNIT);
            }
        }
        lemma_square_deviations_bound(s.drop_last(), center);
        let last = s[s.len() - 1] as int;
        assert(last <= UNIT);
        assert(0 <= (last - center) * (last - center) <= UNIT * UNIT) by (nonlinear_arith)
            requires
                0 <= last <= UNIT,
                0 <= center <= UNIT,
        ;
        assert((s.len() - 1) * (UNIT * UNIT) + UNIT * UNIT == s.len() * (UNIT * UNIT))
            by (nonlinear_arith);
    }
}

/// Add up a list of unit scores.
pub fn total(values: &Vec<u64>) -> (sum: u128)
    requires
        all_unit(values@),
    ensures
        sum as int == sum_of(values@),
        sum <= values@.len() * UNIT,
{
    let mut sum: u128 = 0;
    let mut i: usize = 0;
    while i < values.len()
        invariant
            i <= values.len(),
            all_unit(values@),
            sum as int == sum_of(values@.take(i as int)),
            sum <= i * UNIT,
        decreases values.len() - i,
    {
        proof {
            assert(values@.take(i + 1).drop_last() =~= values@.take(i as int));
            assert(values@[i as int] <= UNIT);
            assert(i * UNIT + UNIT == (i + 1) * UNIT) by (nonlinear_arith);
            assert(i * UNIT <= usize::MAX * UNIT) by (nonlinear_arith)
                requires
                    i <= usize::MAX,
            ;
        }
        sum = sum + values[i] as u128;
        i += 1;
    }
    proof {
        assert(values@.take(i as int) =~= values@);
    }
    sum
}

/// The mean of a list of unit scores, rounded down; zero for an empty list.
pub fn mean(values: &Vec<u64>) -> (m: u64)
    requires
        all_unit(values@),
    ensures
        m as int == mean_of(values@),
        m <= UNIT,
{
    if values.len() == 0 {
        return 0;
    }
    let sum: u128 = total(values);
    proof {
        lemma_mean_bound(values@);
    }
    (sum / (values.len() as u128)) as u64
}

/// The standard deviation of a list of unit scores about their mean; one
/// for an empty list.
pub fn deviation(values: &Vec<u64>) -> (d: u64)
    requires
        all_unit(values@),
    ensures
        d as int == deviation_of(values@),
        d <= UNIT,
{
    if values.len() == 0 {
        return UNIT;
    }
    let center: u64 = mean(values);
    let mut squares: u128 = 0;
    let mut i: usize = 0;
    while i < values.len()
        invariant
            i <= values.len(),
            all_unit(values@),
            center <= UNIT,
            squares as int == square_deviations(values@.take(i as int), center as int),
            squares <= i * (UNIT * UNIT),
        decreases values.len() - i,
    {
        let value: u64 = values[i];
        let distance: u64 = if value >= center {
            value - center
        } else {
            center - value
        };
        proof {
            assert(values@.take(i + 1).drop_last() =~= values@.take(i as int));
            assert(values@[i as int] <= UNIT);
            assert(distance * distance == (value - center) * (value - center))
                by (nonlinear_arith)
                requires
                    distance == value - center || distance == center - value,
            ;
            assert(distance * distance <= UNIT * UNIT) by (nonlinear_arith)
                requires
                    0 <= distance <= UNIT,
            ;
            assert(i * (UNIT * UNIT) + UNIT * UNIT == (i + 1) * (UNIT * UNIT))
                by (nonlinear_arith);
            assert(i * (UNIT * UNIT) <= usize::MAX * (UNIT * UNIT)) by (nonlinear_arith)
                requires
                    i <= usize::MAX,
            ;
        }
        squares = squares + (distance as u128) * (distance as u128);
        i += 1;
    }
    proof {
        assert(values@.take(i as int) =~= values@);
    }
    let count: u128 = values.len() as u128;
    let spread: u128 = squares / count;
    assert(spread <= UNIT * UNIT) by (nonlinear_arith)
        requires
            spread == squares / count,
            0 <= squares <= count * (UNIT * UNIT),
            count > 0,
    ;
    let root: u64 = isqrt(spread as u64);
    assert(root <= UNIT) by (nonlinear_arith)
        requires
            root * root <= spread,
            spread <= UNIT * UNIT,
            UNIT == 1_000_000,
    ;
    root
}

/// The smallest of a non-empty list of scores.
pub fn smallest(values: &Vec<u64>) -> (m: u64)
    requires
        values@.len() > 0,
    ensures
        m as int == min_of(values@),
        forall|i: int| 0 <= i < values@.len() ==> m <= values@[i],
        exists|i: int| 0 <= i < values@.len() && m == values@[i],
{
    let mut m: u64 = values[0];
    let ghost mut at: int = 0;
    let mut i: usize = 1;
    proof {
        assert(values@.take(1).len() == 1);
    }
    while i < values.len()
        invariant
            1 <= i <= values.len(),
            m as int == min_of(values@.take(i as int)),
            forall|k: int| 0 <= k < i ==> m <= values@[k],
            0 <= at < i && m == values@[at],
        decreases values.len() - i,
    {
        proof {
            assert(values@.take(i + 1).drop_last() =~= values@.take(i as int));
        }
        if values[i] < m {
            m = values[i];
            proof {
                at = i as int;
            }
        }
        i += 1;
    }
    proof {
        assert(values@.take(i as int) =~= values@);
    }
    m
}

/// The largest of a non-empty list of scores.
pub fn largest(values: &Vec<u64>) -> (m: u64)
    requires
        values@.len() > 0,
    ensures
        m as int == max_of(values@),
        forall|i: int| 0 <= i < values@.len() ==> m >= values@[i],
        exists|i: int| 0 <= i < values@.len() && m == values@[i],
{
    let mut m: u64 = values[0];
    let ghost mut at: int = 0;
    let mut i: usize = 1;
    proof {
        assert(values@.take(1).len() == 1);
    }
    while i < values.len()
        invariant
            1 <= i <= values.len(),
            m as int == max_of(values@.take(i as int)),
            forall|k: int| 0 <= k < i ==> m >= values@[k],
            0 <= at < i && m == values@[at],
        decreases values.len() - i,
    {
        proof {
            assert(values@.take(i + 1).drop_last() =~= values@.take(i as int));
        }
        if values[i] > m {
            m = values[i];
            proof {
                at = i as int;
            }
        }
        i += 1;
    }
    proof {
        assert(values@.take(i as int) =~= values@);
    }
    m
}

} // verus!
