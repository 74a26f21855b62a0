//! The treasury: its state, the rules of its operations, and the calls it
//! makes to the asset ledger.

use crate::category::{category_named, FeeCategory};
use crate::host::{
    is_contract_address, ledger_transfer, names_contract, same_address, LedgerRefusal,
};
use crate::rewards::{
    lemma_dust_conservation, lemma_nothing_planned_of_nothing, lemma_planned_payouts_sum,
    paid_total, payout_sum, plan_payouts, planned_payouts, share_total, sum_shares, Payout,
    PayoutPlan, RewardShare, BPS_TOTAL,
};
use soroban_sdk::Address;
use vstd::prelude::*;

verus! {

/// What the host has verified about who stands behind a call.
#[derive(Clone, Debug, PartialEq, Eq)]
pub enum Authorization {
    /// The host has verified no one's authorization.
    Unverified,
    /// The host has verified that this identity authorized the call.
    VerifiedFor(Address),
}

impl Authorization {
    /// Whether this is a verified authorization by `who`.
    pub open spec fn authorizes(self, who: Address) -> bool {
        self == Authorization::VerifiedFor(who)
    }

    /// Tells whether this is a verified authorization by `who`.
    pub fn covers(&self, who: &Address) -> (covered: bool)
        ensures
            covered == self.authorizes(*who),
    {
        match self {
            Authorization::Unverified => false,
            Authorization::VerifiedFor(signer) => same_address(signer, who),
        }
    }
}

/// Why an operation of the treasury was refused. A refused operation leaves
/// the treasury as it was.
#[derive(Clone, Copy, Debug, PartialEq, Eq)]
pub enum TreasuryError {
    /// The call does not carry the admin's verified authorization.
    Unauthorized,
    /// A deposit of an amount that is not positive.
    InvalidAmount,
    /// A deposit under a name that no fee category has.
    InvalidCategory,
    /// A reward set whose shares do not add up to the whole.
    InvalidShareTotal,
    /// The treasury has not been initialized: no admin and no asset ledger
    /// are set.
    NotInitialized,
    /// The deposit would take the pool beyond what a pool can hold.
    PoolOverflow,
    /// The asset ledger did not carry out a transfer: for want of funds or
    /// of the sender's authorization, or because the address set as the
    /// asset ledger is no contract at all.
    TransferFailed(LedgerRefusal),
}

/// What an operation of the treasury announces when it succeeds.
#[derive(Clone, Debug, PartialEq, Eq)]
pub enum TreasuryEvent {
    /// The treasury was initialized.
    Initialized { admin: Address, asset_contract: Address, factory: Address },
    /// Fees were credited to a pool.
    FeeDeposited { amount: i128 },
    /// The leaderboard pool was paid out to a reward set of
    /// `recipient_count` entries; `total_fees` is what the pool held.
    LeaderboardDistributed { total_fees: i128, recipient_count: usize },
}

/// The record that a treasury keeps once it is initialized.
#[derive(Clone, Debug, PartialEq, Eq)]
pub struct TreasuryState {
    pub admin: Address,
    pub asset_contract: Address,
    pub factory: Address,
    pub platform_fees: i128,
    pub leaderboard_fees: i128,
    pub creator_fees: i128,
}

impl TreasuryState {
    /// No pool is negative.
    pub open spec fn pools_valid(self) -> bool {
        &&& 0 <= self.platform_fees
        &&& 0 <= self.leaderboard_fees
        &&& 0 <= self.creator_fees
    }

    /// The balance of the pool of one category.
    pub open spec fn pool(self, category: FeeCategory) -> i128 {
        match category {
            FeeCategory::Platform => self.platform_fees,
            FeeCategory::Leaderboard => self.leaderboard_fees,
            FeeCategory::Creator => self.creator_fees,
        }
    }

    /// This record with the pool of one category set to `balance`.
    pub open spec fn with_pool(self, category: FeeCategory, balance: i128) -> TreasuryState {
        match category {
            FeeCategory::Platform => TreasuryState { platform_fees: balance, ..self },
            FeeCategory::Leaderboard => TreasuryState { leaderboard_fees: balance, ..self },
            FeeCategory::Creator => TreasuryState { creator_fees: balance, ..self },
        }
    }

    /// The record of a treasury that has just been initialized.
    pub open spec fn fresh(admin: Address, asset_contract: Address, factory: Address)
        -> TreasuryState {
        TreasuryState {
            admin,
            asset_contract,
            factory,
            platform_fees: 0,
            leaderboard_fees: 0,
            creator_fees: 0,
        }
    }
}

/// What a deposit comes to before any funds move: the category to credit,
/// or the reason for which the deposit is refused. The amount is looked at
/// first, then the treasury, then the category's name, then the room left
/// in the pool.
pub open spec fn deposit_check(state: Option<TreasuryState>, name: Seq<char>, amount: i128)
    -> Result<FeeCategory, TreasuryError> {
    if amount <= 0 {
        Err(TreasuryError::InvalidAmount)
    } else if state is None {
        Err(TreasuryError::NotInitialized)
    } else {
        match category_named(name) {
            None => Err(TreasuryError::InvalidCategory),
            Some(category) => if state->0.pool(category) + amount > i128::MAX {
                Err(TreasuryError::PoolOverflow)
            } else {
                Ok(category)
            },
        }
    }
}

/// The record after `amount` has been credited to the pool of `category`.
pub open spec fn credited(state: TreasuryState, category: FeeCategory, amount: i128)
    -> TreasuryState {
    state.with_pool(category, (state.pool(category) + amount) as i128)
}

/// What a successful distribution did: the transfers it made, in order, and
/// what it announces. A distribution from an empty pool makes no transfer
/// and announces nothing.
#[derive(Clone, Debug, PartialEq, Eq)]
pub struct Distribution {
    pub payouts: Vec<Payout>,
    pub event: Option<TreasuryEvent>,
}

impl Distribution {
    /// No transfer was made and nothing is announced.
    pub open spec fn is_nothing(self) -> bool {
        self.payouts@.len() == 0 && self.event is None
    }

    /// The transfers are those of a pool of `total` over `rewards`, and the
    /// distribution is announced with the pool and the size of the reward
    /// set.
    pub open spec fn pays(self, total: i128, rewards: Seq<RewardShare>) -> bool {
        &&& self.payouts@ == planned_payouts(total as int, rewards)
        &&& self.event == Some(
            TreasuryEvent::LeaderboardDistributed {
                total_fees: total,
                recipient_count: rewards.len() as usize,
            },
        )
    }
}

/// What a distribution comes to before any funds move: the leaderboard
/// pool that is to be paid out, or the reason for which the distribution is
/// refused. The treasury is looked at first, then the authorization, then
/// the shares.
pub open spec fn distribution_check(
    state: Option<TreasuryState>,
    auth: Authorization,
    rewards: Seq<RewardShare>,
) -> Result<i128, TreasuryError> {
    match state {
        None => Err(TreasuryError::NotInitialized),
        Some(state) => if !auth.authorizes(state.admin) {
            Err(TreasuryError::Unauthorized)
        } else if share_total(rewards) != BPS_TOTAL {
            Err(TreasuryError::InvalidShareTotal)
        } else {
            Ok(state.leaderboard_fees)
        },
    }
}

/// The record after the leaderboard pool has been paid out over `rewards`:
/// the pool keeps what rounding down left undistributed.
pub open spec fn distributed(state: TreasuryState, rewards: Seq<RewardShare>) -> TreasuryState {
    state.with_pool(
        FeeCategory::Leaderboard,
        (state.leaderboard_fees - paid_total(state.leaderboard_fees as int, rewards)) as i128,
    )
}

/// A distribution neither loses nor makes funds: what the payouts carry
/// and what stays in the leaderboard pool add up to what the pool held. The
/// payouts never exceed the pool, and the other pools and the identities
/// are untouched.
pub proof fn lemma_distribution_conserves(state: TreasuryState, rewards: Seq<RewardShare>)
    requires
        state.pools_valid(),
        share_total(rewards) == BPS_TOTAL,
    ensures
        0 <= paid_total(state.leaderboard_fees as int, rewards) <= state.leaderboard_fees,
        distributed(state, rewards).leaderboard_fees
            == state.leaderboard_fees - paid_total(state.leaderboard_fees as int, rewards),
        distributed(state, rewards).leaderboard_fees
            + payout_sum(planned_payouts(state.leaderboard_fees as int, rewards))
            == state.leaderboard_fees,
        distributed(state, rewards).pools_valid(),
        distributed(state, rewards).platform_fees == state.platform_fees,
        distributed(state, rewards).creator_fees == state.creator_fees,
        distributed(state, rewards).admin == state.admin,
        distributed(state, rewards).asset_contract == state.asset_contract,
        distributed(state, rewards).factory == state.factory,
{
    lemma_dust_conservation(state.leaderboard_fees as int, rewards);
    lemma_planned_payouts_sum(state.leaderboard_fees as int, rewards);
}

/// Asks the asset ledger at `asset` to move `amount` from `from` to `to`.
/// An address that does not name a contract cannot be asked anything: the
/// transfer is then refused without a call.
fn request_transfer(
    asset: &Address,
    from: &Address,
    to: &Address,
    amount: i128,
) -> (outcome: Result<(), LedgerRefusal>)
    ensures
        !names_contract(*asset) ==> (
            outcome == Err::<(), LedgerRefusal>(LedgerRefusal::NotAContract)
        ),
{
    if !is_contract_address(asset) {
        return Err(LedgerRefusal::NotAContract);
    }
    match ledger_transfer(asset, from, to, amount) {
        Ok(_) => Ok(()),
        Err(Some(error)) => Err(LedgerRefusal::Refused(error)),
        Err(None) => Err(LedgerRefusal::Malformed),
    }
}

/// Asks the asset ledger for each payout in turn, as a transfer out of
/// `from`, and stops at the first that it refuses. With no payout to make
/// the ledger is not asked and nothing can be refused.
fn pay_out(
    asset: &Address,
    from: &Address,
    payouts: &Vec<Payout>,
) -> (outcome: Result<(), LedgerRefusal>)
    ensures
        payouts@.len() == 0 ==> outcome is Ok,
        payouts@.len() > 0 && !names_contract(*asset) ==> (
            outcome == Err::<(), LedgerRefusal>(LedgerRefusal::NotAContract)
        ),
{
    let mut i: usize = 0;
    while i < payouts.len()
        invariant
            i <= payouts.len(),
            i > 0 ==> names_contract(*asset),
        decreases payouts.len() - i,
    {
        let payout = &payouts[i];
        if let Err(refusal) = request_transfer(asset, from, &payout.recipient, payout.amount) {
            return Err(refusal);
        }
        i = i + 1;
    }
    Ok(())
}

/// The identities that an initialized treasury knows.
#[derive(Debug)]
struct Parties {
    admin: Address,
    asset_contract: Address,
    factory: Address,
}

/// The fee ledger. It starts out uninitialized, with empty pools;
/// `initialize` gives it an admin and an asset ledger.
#[derive(Debug)]
pub struct Treasury {
    parties: Option<Parties>,
    platform_fees: i128,
    leaderboard_fees: i128,
    creator_fees: i128,
}

impl View for Treasury {
    type V = Option<TreasuryState>;

    /// The record that the treasury keeps, or `None` before it is
    /// initialized.
    closed spec fn view(&self) -> Option<TreasuryState> {
        match self.parties {
            None => None,
            Some(parties) => Some(
                TreasuryState {
                    admin: parties.admin,
                    asset_contract: parties.asset_contract,
                    factory: parties.factory,
                    platform_fees: self.platform_fees,
                    leaderboard_fees: self.leaderboard_fees,
                    creator_fees: self.creator_fees,
                },
            ),
        }
    }
}

impl Treasury {
    /// Pools are never negative, and they are empty until the treasury is
    /// initialized.
    #[verifier::type_invariant]
    spec fn inv(self) -> bool {
        &&& 0 <= self.platform_fees
        &&& 0 <= self.leaderboard_fees
        &&& 0 <= self.creator_fees
        &&& self.parties is None ==> self.platform_fees == 0 && self.leaderboard_fees == 0
            && self.creator_fees == 0
    }

    /// The balance of the pool of one category: zero before the treasury is
    /// initialized.
    pub open spec fn pool(&self, category: FeeCategory) -> i128 {
        match self@ {
            Some(state) => state.pool(category),
            None => 0,
        }
    }

    /// A treasury that has not been initialized.
    pub fn new() -> (treasury: Treasury)
        ensures
            treasury@ is None,
    {
        Treasury { parties: None, platform_fees: 0, leaderboard_fees: 0, creator_fees: 0 }
    }

    /// Takes up a record that was kept elsewhere. A record with a negative
    /// pool is not a treasury's record and is refused.
    pub fn restore(state: TreasuryState) -> (treasury: Option<Treasury>)
        ensures
            treasury is Some <==> state.pools_valid(),
            treasury is Some ==> treasury->0@ == Some(state),
    {
        if state.platform_fees < 0 || state.leaderboard_fees < 0 || state.creator_fees < 0 {
            None
        } else {
            Some(
                Treasury {
                    parties: Some(
                        Parties {
                            admin: state.admin,
                            asset_contract: state.asset_contract,
                            factory: state.factory,
                        },
                    ),
                    platform_fees: state.platform_fees,
                    leaderboard_fees: state.leaderboard_fees,
                    creator_fees: state.creator_fees,
                },
            )
        }
    }

    /// The record that the treasury keeps, to be stored elsewhere; `None`
    /// before the treasury is initialized.
    pub fn snapshot(&self) -> (state: Option<TreasuryState>)
        ensures
            state == self@,
            state is Some ==> state->0.pools_valid(),
    {
        proof {
            use_type_invariant(self);
        }
        match &self.parties {
            None => None,
            Some(parties) => Some(
                TreasuryState {
                    admin: parties.admin.clone(),
                    asset_contract: parties.asset_contract.clone(),
                    factory: parties.factory.clone(),
                    platform_fees: self.platform_fees,
                    leaderboard_fees: self.leaderboard_fees,
                    creator_fees: self.creator_fees,
                },
            ),
        }
    }

    /// Sets the admin, the asset ledger and the factory, and empties the
    /// pools. The call must carry `admin`'s verified authorization. A
    /// treasury that was initialized before is overwritten. The addresses
    /// are taken as they come: an asset ledger that is no contract shows
    /// only when a transfer is asked of it, which then fails.
    pub fn initialize(
        &mut self,
        auth: &Authorization,
        admin: Address,
        asset_contract: Address,
        factory: Address,
    ) -> (result: Result<TreasuryEvent, TreasuryError>)
        ensures
            !auth.authorizes(admin) ==> (
                result == Err::<TreasuryEvent, TreasuryError>(TreasuryError::Unauthorized)
                && final(self)@ == old(self)@
            ),
            auth.authorizes(admin) ==> (
                result is Ok
                && result->Ok_0 == (TreasuryEvent::Initialized { admin, asset_contract, factory })
                && final(self)@ == Some(TreasuryState::fresh(admin, asset_contract, factory))
            ),
    {
        if !auth.covers(&admin) {
            return Err(TreasuryError::Unauthorized);
        }
        let event = TreasuryEvent::Initialized {
            admin: admin.clone(),
            asset_contract: asset_contract.clone(),
            factory: factory.clone(),
        };
        proof {
            use_type_invariant(&*self);
        }
        self.platform_fees = 0;
        self.leaderboard_fees = 0;
        self.creator_fees = 0;
        self.parties = Some(Parties { admin, asset_contract, factory });
        Ok(event)
    }

    /// Checks a deposit before any funds move, and resolves its category.
    pub fn check_deposit(
        &self,
        category: &str,
        amount: i128,
    ) -> (checked: Result<FeeCategory, TreasuryError>)
        ensures
            checked == deposit_check(self@, category@, amount),
    {
        if amount <= 0 {
            return Err(TreasuryError::InvalidAmount);
        }
        if self.parties.is_none() {
            return Err(TreasuryError::NotInitialized);
        }
        match FeeCategory::from_name(category) {
            None => Err(TreasuryError::InvalidCategory),
            Some(resolved) => {
                let balance: i128 = match resolved {
                    FeeCategory::Platform => self.platform_fees,
                    FeeCategory::Leaderboard => self.leaderboard_fees,
                    FeeCategory::Creator => self.creator_fees,
                };
                if balance > i128::MAX - amount {
                    Err(TreasuryError::PoolOverflow)
                } else {
                    Ok(resolved)
                }
            },
        }
    }

    /// Concludes a deposit once the asset ledger has answered the request
    /// to move `amount` into the treasury's account. The deposit is checked
    /// as in `check_deposit`; if it passes and the ledger has carried out
    /// the transfer, the pool is credited and the deposit announced; if the
    /// ledger refused, the deposit fails and no pool changes.
    pub fn settle_deposit(
        &mut self,
        category: &str,
        amount: i128,
        outcome: Result<(), LedgerRefusal>,
    ) -> (result: Result<TreasuryEvent, TreasuryError>)
        ensures
            (match deposit_check(old(self)@, category@, amount) {
                Err(reason) => {
                    &&& result == Err::<TreasuryEvent, TreasuryError>(reason)
                    &&& final(self)@ == old(self)@
                },
                Ok(resolved) => match outcome {
                    Err(refusal) => {
                        &&& result is Err
                        &&& result->Err_0 == TreasuryError::TransferFailed(refusal)
                        &&& final(self)@ == old(self)@
                    },
                    Ok(_) => {
                        &&& result is Ok
                        &&& result->Ok_0 == (TreasuryEvent::FeeDeposited { amount })
                        &&& final(self)@ == Some(credited(old(self)@->0, resolved, amount))
                    },
                },
            }),
    {
        let resolved = match self.check_deposit(category, amount) {
            Err(reason) => {
                return Err(reason);
            },
            Ok(resolved) => resolved,
        };
        match outcome {
            Err(refusal) => Err(TreasuryError::TransferFailed(refusal)),
            Ok(_) => {
                proof {
                    use_type_invariant(&*self);
                }
                match resolved {
                    FeeCategory::Platform => {
                        self.platform_fees = self.platform_fees + amount;
                    },
                    FeeCategory::Leaderboard => {
                        self.leaderboard_fees = self.leaderboard_fees + amount;
                    },
                    FeeCategory::Creator => {
                        self.creator_fees = self.creator_fees + amount;
                    },
                }
                Ok(TreasuryEvent::FeeDeposited { amount })
            },
        }
    }

    /// Takes `amount` in fees from `source` into the pool that `category`
    /// names. The deposit is checked first; only then is the asset ledger
    /// asked to move `amount` from `source` to `treasury_account`, and only
    /// when it has done so is the pool credited. Whether `source` agreed to
    /// the debit is for the ledger to enforce. Where the address set as the
    /// asset ledger is no contract the transfer fails without a call.
    pub fn deposit_fees(
        &mut self,
        treasury_account: &Address,
        source: &Address,
        category: &str,
        amount: i128,
    ) -> (result: Result<TreasuryEvent, TreasuryError>)
        ensures
            (match deposit_check(old(self)@, category@, amount) {
                Err(reason) => {
                    &&& result == Err::<TreasuryEvent, TreasuryError>(reason)
                    &&& final(self)@ == old(self)@
                },
                Ok(resolved) => match result {
                    Err(reason) => {
                        &&& reason is TransferFailed
                        &&& final(self)@ == old(self)@
                    },
                    Ok(event) => {
                        &&& names_contract(old(self)@->0.asset_contract)
                        &&& event == (TreasuryEvent::FeeDeposited { amount })
                        &&& final(self)@ == Some(credited(old(self)@->0, resolved, amount))
                    },
                },
            }),
            (deposit_check(old(self)@, category@, amount) is Ok
                && !names_contract(old(self)@->0.asset_contract)) ==> (
                result == Err::<TreasuryEvent, TreasuryError>(
                    TreasuryError::TransferFailed(LedgerRefusal::NotAContract),
                )
            ),
            amount <= 0 ==> (
                result == Err::<TreasuryEvent, TreasuryError>(TreasuryError::InvalidAmount)
                && final(self)@ == old(self)@
            ),
            category_named(category@) is None ==> (
                result is Err
                && final(self)@ == old(self)@
            ),
    {
        if let Err(reason) = self.check_deposit(category, amount) {
            return Err(reason);
        }
        let outcome = match &self.parties {
            None => {
                return Err(TreasuryError::NotInitialized);
            },
            Some(parties) => request_transfer(
                &parties.asset_contract,
                source,
                treasury_account,
                amount,
            ),
        };
        self.settle_deposit(category, amount, outcome)
    }

    /// Checks a distribution before any funds move, and reads the pool
    /// that is to be paid out.
    pub fn check_distribution(
        &self,
        auth: &Authorization,
        rewards: &Vec<RewardShare>,
    ) -> (checked: Result<i128, TreasuryError>)
        ensures
            checked == distribution_check(self@, *auth, rewards@),
    {
        match &self.parties {
            None => Err(TreasuryError::NotInitialized),
            Some(parties) => {
                if !auth.covers(&parties.admin) {
                    Err(TreasuryError::Unauthorized)
                } else if sum_shares(rewards) != BPS_TOTAL as u128 {
                    Err(TreasuryError::InvalidShareTotal)
                } else {
                    Ok(self.leaderboard_fees)
                }
            },
        }
    }

    /// Writes the pool back after the payouts of `plan` have been made, and
    /// returns them.
    fn conclude_distribution(
        &mut self,
        plan: PayoutPlan,
        rewards: &Vec<RewardShare>,
    ) -> (done: Distribution)
        requires
            old(self)@ is Some,
            share_total(rewards@) == BPS_TOTAL,
            plan.payouts@ == planned_payouts(old(self)@->0.leaderboard_fees as int, rewards@),
            plan.distributed == paid_total(old(self)@->0.leaderboard_fees as int, rewards@),
            0 <= plan.distributed <= old(self)@->0.leaderboard_fees,
        ensures
            done.pays(old(self)@->0.leaderboard_fees, rewards@),
            final(self)@ == Some(distributed(old(self)@->0, rewards@)),
    {
        proof {
            use_type_invariant(&*self);
        }
        let total_fees: i128 = self.leaderboard_fees;
        self.leaderboard_fees = total_fees - plan.distributed;
        Distribution {
            payouts: plan.payouts,
            event: Some(
                TreasuryEvent::LeaderboardDistributed {
                    total_fees,
                    recipient_count: rewards.len(),
                },
            ),
        }
    }

    /// Concludes a distribution once the asset ledger has answered the
    /// payouts. The distribution is checked as in `check_distribution`. An
    /// empty pool is left alone, whatever the ledger said. Otherwise, if the
    /// ledger has carried out every payout, the pool keeps only what was
    /// not paid out; if it refused one, the distribution fails and the pool
    /// is untouched.
    pub fn settle_distribution(
        &mut self,
        auth: &Authorization,
        rewards: &Vec<RewardShare>,
        outcome: Result<(), LedgerRefusal>,
    ) -> (result: Result<Distribution, TreasuryError>)
        ensures
            (match distribution_check(old(self)@, *auth, rewards@) {
                Err(reason) => {
                    &&& result == Err::<Distribution, TreasuryError>(reason)
                    &&& final(self)@ == old(self)@
                },
                Ok(total) => if total == 0 {
                    &&& result is Ok
                    &&& result->Ok_0.is_nothing()
                    &&& final(self)@ == old(self)@
                } else {
                    match outcome {
                        Err(refusal) => {
                            &&& result is Err
                            &&& result->Err_0 == TreasuryError::TransferFailed(refusal)
                            &&& final(self)@ == old(self)@
                        },
                        Ok(_) => {
                            &&& result is Ok
                            &&& result->Ok_0.pays(total, rewards@)
                            &&& final(self)@ == Some(distributed(old(self)@->0, rewards@))
                        },
                    }
                },
            }),
    {
        let total_fees: i128 = match self.check_distribution(auth, rewards) {
            Err(reason) => {
                return Err(reason);
            },
            Ok(total_fees) => total_fees,
        };
        if total_fees == 0 {
            return Ok(Distribution { payouts: Vec::new(), event: None });
        }
        match outcome {
            Err(refusal) => Err(TreasuryError::TransferFailed(refusal)),
            Ok(_) => {
                proof {
                    use_type_invariant(&*self);
                }
                let plan = plan_payouts(total_fees, rewards);
                Ok(self.conclude_distribution(plan, rewards))
            },
        }
    }

    /// Pays the leaderboard pool out over a reward set. The call must carry
    /// the admin's verified authorization, and the shares must add up to
    /// the whole. An empty pool is left alone: no transfer, no event.
    /// Otherwise each entry receives its part of the pool, rounded down,
    /// by a transfer from `treasury_account` on the asset ledger, in the
    /// order of the set and as often as it is listed; entries whose part is
    /// zero are passed over. The pool is written once, after the last
    /// payout: it keeps what was not paid out.
    ///
    /// Where no entry's part is above zero the ledger is not asked at all,
    /// and the distribution succeeds. If the ledger refuses a payout the
    /// distribution stops and fails with the pool untouched; where the
    /// address set as the asset ledger is no contract the first payout
    /// fails without a call. Payouts made before a refusal stand on the
    /// ledger until the caller abandons the host invocation, which it must.
    pub fn distribute_leaderboard(
        &mut self,
        treasury_account: &Address,
        auth: &Authorization,
        rewards: &Vec<RewardShare>,
    ) -> (result: Result<Distribution, TreasuryError>)
        ensures
            (match distribution_check(old(self)@, *auth, rewards@) {
                Err(reason) => {
                    &&& result == Err::<Distribution, TreasuryError>(reason)
                    &&& final(self)@ == old(self)@
                },
                Ok(total) => if total == 0 {
                    &&& result is Ok
                    &&& result->Ok_0.is_nothing()
                    &&& final(self)@ == old(self)@
                } else {
                    match result {
                        Err(reason) => {
                            &&& reason is TransferFailed
                            &&& planned_payouts(total as int, rewards@).len() > 0
                            &&& final(self)@ == old(self)@
                        },
                        Ok(done) => {
                            &&& done.pays(total, rewards@)
                            &&& final(self)@ == Some(distributed(old(self)@->0, rewards@))
                        },
                    }
                },
            }),
            (match distribution_check(old(self)@, *auth, rewards@) {
                Err(_) => true,
                Ok(total) => if planned_payouts(total as int, rewards@).len() == 0 {
                    result is Ok
                } else {
                    !names_contract(old(self)@->0.asset_contract) ==> (
                        result == Err::<Distribution, TreasuryError>(
                            TreasuryError::TransferFailed(LedgerRefusal::NotAContract),
                        )
                    )
                },
            }),
            share_total(rewards@) != BPS_TOTAL ==> (
                result is Err
                && final(self)@ == old(self)@
            ),
            old(self)@ is Some && !auth.authorizes(old(self)@->0.admin) ==> (
                result == Err::<Distribution, TreasuryError>(TreasuryError::Unauthorized)
                && final(self)@ == old(self)@
            ),
    {
        let total_fees: i128 = match self.check_distribution(auth, rewards) {
            Err(reason) => {
                return Err(reason);
            },
            Ok(total_fees) => total_fees,
        };
        proof {
            use_type_invariant(&*self);
        }
        let outcome = match &self.parties {
            None => Ok(()),
            Some(parties) => {
                if total_fees == 0 {
                    proof {
                        lemma_nothing_planned_of_nothing(rewards@);
                    }
                    Ok(())
                } else {
                    let plan = plan_payouts(total_fees, rewards);
                    pay_out(&parties.asset_contract, treasury_account, &plan.payouts)
                }
            },
        };
        self.settle_distribution(auth, rewards, outcome)
    }

    /// The fees held in the platform pool.
    pub fn get_platform_fees(&self) -> (fees: i128)
        ensures
            fees == self.pool(FeeCategory::Platform),
            0 <= fees,
    {
        proof {
            use_type_invariant(self);
        }
        self.platform_fees
    }

    /// The fees held in the leaderboard pool.
    pub fn get_leaderboard_fees(&self) -> (fees: i128)
        ensures
            fees == self.pool(FeeCategory::Leaderboard),
            0 <= fees,
    {
        proof {
            use_type_invariant(self);
        }
        self.leaderboard_fees
    }

    /// The fees held in the creator pool.
    pub fn get_creator_fees(&self) -> (fees: i128)
        ensures
            fees == self.pool(FeeCategory::Creator),
            0 <= fees,
    {
        proof {
            use_type_invariant(self);
        }
        self.creator_fees
    }
}

} // verus!
