//! Basis point shares and the payouts they stand for.

use soroban_sdk::Address;
use vstd::prelude::*;

verus! {

/// The number of basis points in a whole: the shares of a reward set add
/// up to this.
pub const BPS_TOTAL: u32 = 10000;

/// One entry of a reward set: who is paid, and how many basis points of the
/// pool they receive.
#[derive(Clone, Debug, PartialEq, Eq)]
pub struct RewardShare {
    pub recipient: Address,
    pub share_bps: u32,
}

/// One transfer out of the treasury.
#[derive(Clone, Debug, PartialEq, Eq)]
pub struct Payout {
    pub recipient: Address,
    pub amount: i128,
}

/// The transfers that a distribution makes, and what they add up to.
#[derive(Clone, Debug, PartialEq, Eq)]
pub struct PayoutPlan {
    pub payouts: Vec<Payout>,
    pub distributed: i128,
}

/// The part of `total` that a share of `share_bps` basis points is worth,
/// rounded down.
pub open spec fn payout_of(total: int, share_bps: int) -> int {
    (total * share_bps) / 10000
}

/// Computes the part of `total` that `share_bps` basis points are worth,
/// rounded down, without leaving the range of `i128` on the way.
pub fn payout_amount(total: i128, share_bps: u32) -> (amount: i128)
    requires
        0 <= total,
        share_bps <= BPS_TOTAL,
    ensures
        amount == payout_of(total as int, share_bps as int),
        0 <= amount <= total,
{
    let whole: i128 = total / 10000;
    let rest: i128 = total % 10000;
    let bps: i128 = share_bps as i128;
    proof {
        lemma_split_payout(total as int, share_bps as int);
    }
    whole * bps + (rest * bps) / 10000
}

/// Splitting `total` into whole ten-thousands and a rest gives the same
/// payout as the direct formula, and every intermediate stays within
/// `total`.
pub proof fn lemma_split_payout(total: int, share_bps: int)
    requires
        0 <= total,
        0 <= share_bps <= 10000,
    ensures
        payout_of(total, share_bps)
            == (total / 10000) * share_bps + ((total % 10000) * share_bps) / 10000,
        0 <= (total / 10000) * share_bps <= total,
        0 <= (total % 10000) * share_bps <= 100000000,
        0 <= payout_of(total, share_bps) <= total,
{
    let q: int = total / 10000;
    let r: int = total % 10000;
    assert(total == q * 10000 + r && 0 <= r < 10000 && 0 <= q);
    assert(0 <= q * share_bps <= q * 10000) by (nonlinear_arith)
        requires
            0 <= q,
            0 <= share_bps <= 10000,
    ;
    assert(0 <= r * share_bps <= 9999 * 10000) by (nonlinear_arith)
        requires
            0 <= r <= 9999,
            0 <= share_bps <= 10000,
    ;
    assert(total * share_bps == (q * share_bps) * 10000 + r * share_bps) by (nonlinear_arith)
        requires
            total == q * 10000 + r,
    ;
    let a: int = q * share_bps;
    let b: int = r * share_bps;
    assert((a * 10000 + b) / 10000 == a + b / 10000) by (nonlinear_arith)
        requires
            0 <= b,
    ;
    assert(b / 10000 <= r) by (nonlinear_arith)
        requires
            0 <= r,
            b == r * share_bps,
            0 <= share_bps <= 10000,
    ;
    assert(0 <= b / 10000) by (nonlinear_arith)
        requires
            0 <= b,
    ;
}

/// The sum of the shares of a reward set, in basis points.
pub open spec fn share_total(rewards: Seq<RewardShare>) -> int
    decreases rewards.len(),
{
    if rewards.len() == 0 {
        0
    } else {
        share_total(rewards.drop_last()) + rewards.last().share_bps
    }
}

/// What a distribution of `total` pays out over all entries of a reward
/// set: the sum of the rounded-down parts.
pub open spec fn paid_total(total: int, rewards: Seq<RewardShare>) -> int
    decreases rewards.len(),
{
    if rewards.len() == 0 {
        0
    } else {
        paid_total(total, rewards.drop_last())
            + payout_of(total, rewards.last().share_bps as int)
    }
}

/// The transfers that a distribution of `total` makes: one for each entry
/// whose part is not zero, in the order of the reward set. An entry that
/// occurs twice is paid twice.
pub open spec fn planned_payouts(total: int, rewards: Seq<RewardShare>) -> Seq<Payout>
    decreases rewards.len(),
{
    if rewards.len() == 0 {
        Seq::empty()
    } else {
        let earlier = planned_payouts(total, rewards.drop_last());
        let amount: int = payout_of(total, rewards.last().share_bps as int);
        if amount > 0 {
            earlier.push(Payout { recipient: rewards.last().recipient, amount: amount as i128 })
        } else {
            earlier
        }
    }
}

/// The sum of the amounts of a list of payouts.
pub open spec fn payout_sum(payouts: Seq<Payout>) -> int
    decreases payouts.len(),
{
    if payouts.len() == 0 {
        0
    } else {
        payout_sum(payouts.drop_last()) + payouts.last().amount
    }
}

/// No single share exceeds the sum of the shares.
pub proof fn lemma_share_within_total(rewards: Seq<RewardShare>, i: int)
    requires
        0 <= i < rewards.len(),
    ensures
        0 <= rewards[i].share_bps <= share_total(rewards),
        0 <= share_total(rewards.drop_last()) <= share_total(rewards),
    decreases rewards.len(),
{
    let earlier = rewards.drop_last();
    assert(share_total(rewards) == share_total(earlier) + rewards.last().share_bps);
    if earlier.len() > 0 {
        lemma_share_within_total(earlier, 0);
    } else {
        assert(share_total(earlier) == 0);
    }
    if i < rewards.len() - 1 {
        lemma_share_within_total(earlier, i);
        assert(earlier[i] == rewards[i]);
    }
}

/// Ten thousand times what is paid out never exceeds the pool times the
/// sum of the shares: rounding down only loses.
pub proof fn lemma_paid_bounded_by_shares(total: int, rewards: Seq<RewardShare>)
    requires
        0 <= total,
    ensures
        0 <= paid_total(total, rewards),
        paid_total(total, rewards) * 10000 <= total * share_total(rewards),
    decreases rewards.len(),
{
    if rewards.len() > 0 {
        let earlier = rewards.drop_last();
        let bps: int = rewards.last().share_bps as int;
        lemma_paid_bounded_by_shares(total, earlier);
        assert(0 <= payout_of(total, bps) && payout_of(total, bps) * 10000 <= total * bps)
            by (nonlinear_arith)
            requires
                0 <= total,
                0 <= bps,
                payout_of(total, bps) == (total * bps) / 10000,
        ;
        assert(total * share_total(rewards) == total * share_total(earlier) + total * bps)
            by (nonlinear_arith)
            requires
                share_total(rewards) == share_total(earlier) + bps,
        ;
    }
}

/// Dust conservation: when the shares of a reward set add up to the whole,
/// a distribution of a pool pays out no more than the pool holds, so what
/// stays behind, the pool less the payouts, is never negative.
pub proof fn lemma_dust_conservation(total: int, rewards: Seq<RewardShare>)
    requires
        0 <= total,
        share_total(rewards) == BPS_TOTAL,
    ensures
        0 <= paid_total(total, rewards) <= total,
        0 <= total - paid_total(total, rewards),
{
    lemma_paid_bounded_by_shares(total, rewards);
}

/// The planned payouts of a reward set carry exactly what the distribution
/// pays out: leaving out the entries whose part is zero loses nothing.
pub proof fn lemma_planned_payouts_sum(total: int, rewards: Seq<RewardShare>)
    requires
        0 <= total <= i128::MAX,
        share_total(rewards) <= BPS_TOTAL,
    ensures
        payout_sum(planned_payouts(total, rewards)) == paid_total(total, rewards),
        planned_payouts(total, rewards).len() <= rewards.len(),
    decreases rewards.len(),
{
    if rewards.len() > 0 {
        let earlier = rewards.drop_last();
        let bps: int = rewards.last().share_bps as int;
        lemma_share_within_total(rewards, rewards.len() - 1);
        lemma_planned_payouts_sum(total, earlier);
        lemma_split_payout(total, bps);
        let amount: int = payout_of(total, bps);
        if amount > 0 {
            let paid = Payout { recipient: rewards.last().recipient, amount: amount as i128 };
            assert(planned_payouts(total, rewards) == planned_payouts(total, earlier).push(paid));
            assert(planned_payouts(total, rewards).drop_last()
                == planned_payouts(total, earlier));
        }
    }
}

/// From an empty pool nothing is planned: every part is zero.
pub proof fn lemma_nothing_planned_of_nothing(rewards: Seq<RewardShare>)
    ensures
        planned_payouts(0, rewards).len() == 0,
        paid_total(0, rewards) == 0,
    decreases rewards.len(),
{
    if rewards.len() > 0 {
        lemma_nothing_planned_of_nothing(rewards.drop_last());
        assert(payout_of(0, rewards.last().share_bps as int) == 0);
    }
}

/// The shares of the first `n` entries of a reward set add up to no more
/// than the shares of all of them.
pub proof fn lemma_prefix_shares(rewards: Seq<RewardShare>, n: int)
    requires
        0 <= n <= rewards.len(),
    ensures
        0 <= share_total(rewards.take(n)) <= share_total(rewards),
    decreases rewards.len(),
{
    if n == rewards.len() {
        assert(rewards.take(n) == rewards);
        if rewards.len() > 0 {
            lemma_share_within_total(rewards, 0);
        }
    } else {
        let earlier = rewards.drop_last();
        assert(rewards.take(n) == earlier.take(n));
        lemma_prefix_shares(earlier, n);
        lemma_share_within_total(rewards, 0);
    }
}

/// Works out the transfers of a distribution of `total` over a reward set:
/// one payout for each entry whose part is not zero, in the order of the
/// set, and the sum of what they pay.
pub fn plan_payouts(total: i128, rewards: &Vec<RewardShare>) -> (plan: PayoutPlan)
    requires
        0 <= total,
        share_total(rewards@) <= BPS_TOTAL,
    ensures
        plan.payouts@ == planned_payouts(total as int, rewards@),
        plan.distributed == paid_total(total as int, rewards@),
        0 <= plan.distributed <= total,
{
    let mut payouts: Vec<Payout> = Vec::new();
    let mut distributed: i128 = 0;
    let mut i: usize = 0;
    while i < rewards.len()
        invariant
            i <= rewards.len(),
            0 <= total,
            share_total(rewards@) <= BPS_TOTAL,
            payouts@ == planned_payouts(total as int, rewards@.take(i as int)),
            distributed == paid_total(total as int, rewards@.take(i as int)),
            0 <= distributed <= total,
        decreases rewards.len() - i,
    {
        let entry = &rewards[i];
        proof {
            let next = rewards@.take(i + 1);
            assert(next.drop_last() == rewards@.take(i as int));
            assert(next.last() == rewards@[i as int]);
            lemma_share_within_total(rewards@, i as int);
            lemma_prefix_shares(rewards@, i + 1);
            lemma_paid_bounded_by_shares(total as int, next);
            assert(paid_total(total as int, next) <= total) by (nonlinear_arith)
                requires
                    paid_total(total as int, next) * 10000 <= total * share_total(next),
                    0 <= share_total(next) <= 10000,
                    0 <= total,
            ;
        }
        let amount: i128 = payout_amount(total, entry.share_bps);
        if amount > 0 {
            payouts.push(Payout { recipient: entry.recipient.clone(), amount });
            distributed = distributed + amount;
        }
        i = i + 1;
    }
    proof {
        assert(rewards@.take(i as int) == rewards@);
    }
    PayoutPlan { payouts, distributed }
}

/// Adds up the shares of a reward set.
pub fn sum_shares(rewards: &Vec<RewardShare>) -> (sum: u128)
    ensures
        sum == share_total(rewards@),
{
    let mut sum: u128 = 0;
    let mut i: usize = 0;
    while i < rewards.len()
        invariant
            i <= rewards.len(),
            sum == share_total(rewards@.take(i as int)),
            sum <= i * 0xffff_ffff,
        decreases rewards.len() - i,
    {
        proof {
            assert(rewards@.take(i + 1).drop_last() == rewards@.take(i as int));
        }
        sum = sum + rewards[i].share_bps as u128;
        i = i + 1;
    }
    proof {
        assert(rewards@.take(i as int) == rewards@);
    }
    sum
}

} // verus!
