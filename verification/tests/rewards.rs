use soroban_sdk::testutils::{Address as _, EnvTestConfig};
use soroban_sdk::{Address, Env};
use treasury::{payout_amount, plan_payouts, sum_shares, Payout, RewardShare, BPS_TOTAL};

fn plain_env() -> Env {
    Env::new_with_config(EnvTestConfig { capture_snapshot_at_drop: false })
}

fn entries(env: &Env, shares: &[u32]) -> Vec<RewardShare> {
    shares
        .iter()
        .map(|&share_bps| RewardShare { recipient: Address::generate(env), share_bps })
        .collect()
}

#[test]
fn a_whole_is_ten_thousand_basis_points() {
    assert_eq!(BPS_TOTAL, 10000);
}

#[test]
fn payout_amount_rounds_down() {
    assert_eq!(payout_amount(3_000_000, 5000), 1_500_000);
    assert_eq!(payout_amount(100, 3333), 33);
    assert_eq!(payout_amount(100, 3334), 33);
    assert_eq!(payout_amount(9_999, 1), 0);
    assert_eq!(payout_amount(10_000, 1), 1);
    assert_eq!(payout_amount(19_999, 1), 1);
    assert_eq!(payout_amount(1, 9_999), 0);
    assert_eq!(payout_amount(1, 10_000), 1);
    assert_eq!(payout_amount(0, 10_000), 0);
    assert_eq!(payout_amount(12_345, 0), 0);
    assert_eq!(payout_amount(123_456_789, 10_000), 123_456_789);
    assert_eq!(payout_amount(123_456_789, 1_234), 15_234_567);
}

#[test]
fn payout_amount_covers_the_whole_range_of_a_pool() {
    assert_eq!(payout_amount(i128::MAX, 10_000), i128::MAX);
    assert_eq!(payout_amount(i128::MAX, 5_000), i128::MAX / 2);
    assert_eq!(payout_amount(i128::MAX, 0), 0);
    // i128::MAX is 17014118346046923173168730371588410 * 10000 + 5727.
    assert_eq!(payout_amount(i128::MAX, 1), 17_014_118_346_046_923_173_168_730_371_588_410);
    assert_eq!(
        payout_amount(i128::MAX, 9_999),
        i128::MAX - 17_014_118_346_046_923_173_168_730_371_588_411
    );
}

#[test]
fn payout_amount_agrees_with_the_direct_formula() {
    for total in [0i128, 1, 2, 7, 9_999, 10_000, 10_001, 65_537, 3_000_000, 987_654_321_012] {
        for bps in [0u32, 1, 2, 3, 4_999, 5_000, 5_001, 9_999, 10_000] {
            assert_eq!(payout_amount(total, bps), total * (bps as i128) / 10_000);
        }
    }
}

#[test]
fn sum_shares_adds_without_wrapping() {
    let env = plain_env();
    assert_eq!(sum_shares(&entries(&env, &[])), 0);
    assert_eq!(sum_shares(&entries(&env, &[10_000])), 10_000);
    assert_eq!(sum_shares(&entries(&env, &[5_000, 5_000])), 10_000);
    assert_eq!(sum_shares(&entries(&env, &[1, 2, 3, 4])), 10);
    assert_eq!(sum_shares(&entries(&env, &[u32::MAX, u32::MAX, 2])), 8_589_934_592);
}

#[test]
fn plan_payouts_lists_the_parts_in_order() {
    let env = plain_env();
    let rewards = entries(&env, &[5_000, 0, 3_000, 2_000]);
    let plan = plan_payouts(1_001, &rewards);
    assert_eq!(
        plan.payouts,
        vec![
            Payout { recipient: rewards[0].recipient.clone(), amount: 500 },
            Payout { recipient: rewards[2].recipient.clone(), amount: 300 },
            Payout { recipient: rewards[3].recipient.clone(), amount: 200 },
        ]
    );
    assert_eq!(plan.distributed, 1_000);
}

#[test]
fn plan_payouts_of_nothing_is_empty() {
    let env = plain_env();
    let rewards = entries(&env, &[4_000, 6_000]);
    let plan = plan_payouts(0, &rewards);
    assert_eq!(plan.payouts, vec![]);
    assert_eq!(plan.distributed, 0);
    let plan = plan_payouts(1_000, &vec![]);
    assert_eq!(plan.payouts, vec![]);
    assert_eq!(plan.distributed, 0);
}

#[test]
fn payouts_never_exceed_the_pool() {
    let env = plain_env();
    let sets: [&[u32]; 5] = [
        &[10_000],
        &[3_333, 3_333, 3_334],
        &[10; 1_000],
        &[9_999, 1],
        &[1_429, 1_429, 1_429, 1_429, 1_428, 1_428, 1_428],
    ];
    for shares in sets {
        let rewards = entries(&env, shares);
        assert_eq!(sum_shares(&rewards), 10_000);
        for total in [0i128, 1, 6, 9_999, 10_000, 10_007, 3_000_000, i128::MAX] {
            let plan = plan_payouts(total, &rewards);
            let paid: i128 = plan.payouts.iter().map(|p| p.amount).sum();
            assert_eq!(paid, plan.distributed);
            assert!(0 <= paid && paid <= total);
            let parts: i128 = shares.iter().map(|&s| payout_amount(total, s)).sum();
            assert_eq!(paid, parts);
        }
    }
}

#[test]
fn small_shares_of_a_small_pool_leave_it_all_as_dust() {
    let env = plain_env();
    let rewards = entries(&env, &[10; 1_000]);
    let plan = plan_payouts(1_999, &rewards);
    assert_eq!(plan.payouts.len(), 1_000);
    assert_eq!(plan.distributed, 1_000);
    let plan = plan_payouts(999, &rewards);
    assert_eq!(plan.payouts.len(), 0);
    assert_eq!(plan.distributed, 0);
}
