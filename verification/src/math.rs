use vstd::prelude::*;

verus! {

/// Division of `num` by `den` rounded to the nearest integer, halves rounded
/// up. For non-negative operands this agrees with rounding the real quotient
/// half away from zero.
pub open spec fn rounded_div(num: int, den: int) -> int
    recommends
        den > 0,
{
    (num + den / 2) / den
}

/// The voting power of `stake` tokens under a bonus multiplier expressed in
/// hundredths: `round(stake * bonus_multiplier / 100)`.
pub open spec fn voting_power_spec(stake: u64, bonus_multiplier: u64) -> int {
    rounded_div(stake * bonus_multiplier, 100)
}

/// The annual-yield reward on `stake` at `yield_percent` percent:
/// `round(stake * yield_percent / 100)`.
pub open spec fn staking_yield_spec(stake: u64, yield_percent: u64) -> int {
    rounded_div(stake * yield_percent, 100)
}

/// `round(stake * bonus_multiplier / 100)`, where `bonus_multiplier` counts
/// hundredths (100 is a neutral multiplier).
pub fn voting_power(stake: u64, bonus_multiplier: u64) -> (r: u64)
    requires
        voting_power_spec(stake, bonus_multiplier) <= u64::MAX,
    ensures
        r == voting_power_spec(stake, bonus_multiplier),
{
    let num: u128 = (stake as u128) * (bonus_multiplier as u128);
    ((num + 50) / 100) as u64
}

/// `round(stake * yield_percent / 100)`.
pub fn staking_yield(stake: u64, yield_percent: u64) -> (r: u64)
    requires
        staking_yield_spec(stake, yield_percent) <= u64::MAX,
    ensures
        r == staking_yield_spec(stake, yield_percent),
{
    let num: u128 = (stake as u128) * (yield_percent as u128);
    ((num + 50) / 100) as u64
}

/// The absolute value of an integer.
pub open spec fn abs_val(x: int) -> int {
    if x < 0 {
        -x
    } else {
        x
    }
}

/// The weighted sum of the first `n` entries of `votes`: each entry pairs a
/// voting power with a signed vote value, and contributes their product.
pub open spec fn outcome_sum(votes: Seq<(u64, i64)>, n: int) -> int
    recommends
        0 <= n <= votes.len(),
    decreases n,
{
    if n <= 0 {
        0
    } else {
        outcome_sum(votes, n - 1) + votes[n - 1].0 * votes[n - 1].1
    }
}

/// The sum of the absolute values of the products in `votes`, which bounds
/// every partial weighted sum.
pub open spec fn outcome_abs_sum(votes: Seq<(u64, i64)>, n: int) -> int
    recommends
        0 <= n <= votes.len(),
    decreases n,
{
    if n <= 0 {
        0
    } else {
        outcome_abs_sum(votes, n - 1) + abs_val(votes[n - 1].0 * votes[n - 1].1)
    }
}

proof fn lemma_outcome_sum_bounded(votes: Seq<(u64, i64)>, n: int)
    requires
        0 <= n <= votes.len(),
    ensures
        abs_val(outcome_sum(votes, n)) <= outcome_abs_sum(votes, n),
        outcome_abs_sum(votes, n) <= outcome_abs_sum(votes, votes.len() as int),
    decreases votes.len() - n,
{
    if n < votes.len() {
        lemma_outcome_sum_bounded(votes, n + 1);
    }
    lemma_outcome_sum_bounded_below(votes, n);
}

proof fn lemma_outcome_sum_bounded_below(votes: Seq<(u64, i64)>, n: int)
    requires
        0 <= n <= votes.len(),
    ensures
        abs_val(outcome_sum(votes, n)) <= outcome_abs_sum(votes, n),
    decreases n,
{
    if n > 0 {
        lemma_outcome_sum_bounded_below(votes, n - 1);
    }
}

/// The signed outcome of a weighted vote: the sum over all entries of
/// `power * vote_value`, where `vote_value` is `1` for yes and `-1` for no.
pub fn governance_voting_outcome(votes: &[(u64, i64)]) -> (r: i64)
    requires
        outcome_abs_sum(votes@, votes@.len() as int) <= i64::MAX,
    ensures
        r == outcome_sum(votes@, votes@.len() as int),
{
    let ghost all: int = votes@.len() as int;
    let mut acc: i128 = 0;
    let mut i: usize = 0;
    while i < votes.len()
        invariant
            0 <= i <= votes@.len(),
            outcome_abs_sum(votes@, all) <= i64::MAX,
            all == votes@.len(),
            acc == outcome_sum(votes@, i as int),
        decreases votes@.len() - i,
    {
        let (power, value) = votes[i];
        assert((power as int) * (value as int) <= i128::MAX && i128::MIN <= (power as int) * (
        value as int)) by (nonlinear_arith)
            requires
                0 <= power <= u64::MAX,
                i64::MIN <= value <= i64::MAX,
        ;
        let prod: i128 = (power as i128) * (value as i128);
        proof {
            lemma_outcome_sum_bounded(votes@, i + 1);
        }
        assert(acc + prod == outcome_sum(votes@, i + 1));
        acc = acc + prod;
        i = i + 1;
    }
    proof {
        lemma_outcome_sum_bounded(votes@, all);
    }
    acc as i64
}

} // verus!
