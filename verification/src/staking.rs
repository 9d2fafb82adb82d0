//! Attestor staking: attestors lock tokens as stake, may queue part of it for
//! unstaking behind an unbonding period, and lose stake to the treasury when
//! the dispute contract slashes them.
//!
//! Token movements are returned to the caller, who performs them with the
//! staking token: `stake` pulls the staked amount from the attestor, `slash`
//! sends the slashed amount to the treasury and `withdraw_unstaked` pays the
//! unstaked amount back to the attestor.

use std::collections::HashMap;
use std::collections::HashSet;
use vstd::prelude::*;

verus! {

broadcast use vstd::std_specs::hash::group_hash_axioms;

/// What a slash did.
#[derive(Clone, Copy, Debug, PartialEq, Eq, Structural)]
pub enum SlashOutcome {
    /// Stake was taken from the attestor and is owed to the treasury.
    Slashed,
    /// The attestor's stake was already zero: nothing changed.
    NoSlash,
}

/// An attestor's stake; `locked` is the part queued for unstaking.
#[derive(Clone, Copy, Debug, PartialEq, Eq, Structural)]
pub struct Stake {
    pub amount: i128,
    pub locked: i128,
}

/// A queued unstake request, payable once the ledger reaches `unlock_timestamp`.
#[derive(Clone, Copy, Debug, PartialEq, Eq, Structural)]
pub struct PendingUnstake {
    pub amount: i128,
    pub unlock_timestamp: u64,
}

/// The configuration fixed at initialization (the dispute contract may be replaced by the admin).
#[derive(Clone, Copy, Debug, PartialEq, Eq, Structural)]
pub struct StakingConfig {
    pub admin: u64,
    pub token: u64,
    pub treasury: u64,
    pub min_stake: i128,
    pub dispute_contract: u64,
    pub unbonding_period: u64,
}

/// The result of a successful `slash`: the outcome and the amount owed to the treasury.
#[derive(Clone, Copy, Debug, PartialEq, Eq, Structural)]
pub struct SlashReceipt {
    pub outcome: SlashOutcome,
    pub amount: i128,
}

/// Why a staking entry point refused a call.
#[derive(Clone, Copy, Debug, PartialEq, Eq, Structural)]
pub enum StakingError {
    /// "already initialized"
    AlreadyInitialized,
    /// "not initialized"
    NotInitialized,
    /// "caller is not admin"
    NotAdmin,
    /// "amount must be positive"
    AmountNotPositive,
    /// "stake overflow"
    StakeOverflow,
    /// "no stake found"
    NoStake,
    /// "unstake already pending"
    UnstakeAlreadyPending,
    /// "insufficient unlocked stake"
    InsufficientUnlockedStake,
    /// "unlock timestamp overflow"
    UnlockOverflow,
    /// "no pending unstake"
    NoPendingUnstake,
    /// "unbonding period not elapsed"
    UnbondingNotElapsed,
    /// "caller is not the dispute contract"
    NotDisputeContract,
    /// "slash amount must be positive"
    SlashAmountNotPositive,
    /// "dispute already processed"
    DisputeAlreadyProcessed,
}

/// The abort message of each refusal.
pub open spec fn staking_error_message(e: StakingError) -> Seq<char> {
    match e {
        StakingError::AlreadyInitialized => "already initialized"@,
        StakingError::NotInitialized => "not initialized"@,
        StakingError::NotAdmin => "caller is not admin"@,
        StakingError::AmountNotPositive => "amount must be positive"@,
        StakingError::StakeOverflow => "stake overflow"@,
        StakingError::NoStake => "no stake found"@,
        StakingError::UnstakeAlreadyPending => "unstake already pending"@,
        StakingError::InsufficientUnlockedStake => "insufficient unlocked stake"@,
        StakingError::UnlockOverflow => "unlock timestamp overflow"@,
        StakingError::NoPendingUnstake => "no pending unstake"@,
        StakingError::UnbondingNotElapsed => "unbonding period not elapsed"@,
        StakingError::NotDisputeContract => "caller is not the dispute contract"@,
        StakingError::SlashAmountNotPositive => "slash amount must be positive"@,
        StakingError::DisputeAlreadyProcessed => "dispute already processed"@,
    }
}

impl StakingError {
    /// The message the contract aborts with.
    pub fn message(&self) -> (r: &'static str)
        ensures
            r@ == staking_error_message(*self),
    {
        match self {
            StakingError::AlreadyInitialized => "already initialized",
            StakingError::NotInitialized => "not initialized",
            StakingError::NotAdmin => "caller is not admin",
            StakingError::AmountNotPositive => "amount must be positive",
            StakingError::StakeOverflow => "stake overflow",
            StakingError::NoStake => "no stake found",
            StakingError::UnstakeAlreadyPending => "unstake already pending",
            StakingError::InsufficientUnlockedStake => "insufficient unlocked stake",
            StakingError::UnlockOverflow => "unlock timestamp overflow",
            StakingError::NoPendingUnstake => "no pending unstake",
            StakingError::UnbondingNotElapsed => "unbonding period not elapsed",
            StakingError::NotDisputeContract => "caller is not the dispute contract",
            StakingError::SlashAmountNotPositive => "slash amount must be positive",
            StakingError::DisputeAlreadyProcessed => "dispute already processed",
        }
    }
}


/// The abstract storage of the staking contract.
#[verifier::ext_equal]
pub struct StakingView {
    pub config: Option<StakingConfig>,
    pub stakes: Map<u64, Stake>,
    pub pending: Map<u64, PendingUnstake>,
    pub processed: Set<u64>,
}

/// The staking contract's storage.
pub struct StakingContract {
    config: Option<StakingConfig>,
    stakes: HashMap<u64, Stake>,
    pending: HashMap<u64, PendingUnstake>,
    processed: HashSet<u64>,
}

impl View for StakingContract {
    type V = StakingView;

    closed spec fn view(&self) -> StakingView {
        StakingView {
            config: self.config,
            stakes: self.stakes@,
            pending: self.pending@,
            processed: self.processed@,
        }
    }
}

pub open spec fn min_int(a: int, b: int) -> int {
    if a < b {
        a
    } else {
        b
    }
}

/// Storage invariant: stakes are non-negative, the locked part is covered by
/// the stake, and it is exactly what the pending unstake request (if any) holds.
pub open spec fn staking_wf(s: StakingView) -> bool {
    &&& forall|a: u64| #[trigger]
        s.stakes.contains_key(a) ==> 0 <= s.stakes[a].locked <= s.stakes[a].amount
    &&& forall|a: u64| #[trigger]
        s.pending.contains_key(a) ==> s.stakes.contains_key(a) && s.pending[a].amount
            == s.stakes[a].locked
    &&& forall|a: u64|
        #![trigger s.stakes.contains_key(a)]
        s.stakes.contains_key(a) && !s.pending.contains_key(a) ==> s.stakes[a].locked == 0
}

pub open spec fn spec_initialize(s: StakingView, cfg: StakingConfig) -> (StakingView, Result<(), StakingError>) {
    if s.config is Some {
        (s, Err(StakingError::AlreadyInitialized))
    } else {
        (StakingView { config: Some(cfg), ..s }, Ok(()))
    }
}

pub open spec fn spec_set_dispute_contract(s: StakingView, caller: u64, new_contract: u64) -> (StakingView, Result<(), StakingError>) {
    match s.config {
        None => (s, Err(StakingError::NotInitialized)),
        Some(cfg) => if caller != cfg.admin {
            (s, Err(StakingError::NotAdmin))
        } else {
            (StakingView { config: Some(StakingConfig { dispute_contract: new_contract, ..cfg }), ..s }, Ok(()))
        },
    }
}

/// The stake of `attestor`, zero when none was ever recorded.
pub open spec fn stake_or_zero(s: StakingView, attestor: u64) -> Stake {
    if s.stakes.contains_key(attestor) {
        s.stakes[attestor]
    } else {
        Stake { amount: 0, locked: 0 }
    }
}

pub open spec fn spec_stake(s: StakingView, attestor: u64, amount: i128) -> (StakingView, Result<(), StakingError>) {
    let old = stake_or_zero(s, attestor);
    if s.config is None {
        (s, Err(StakingError::NotInitialized))
    } else if amount <= 0 {
        (s, Err(StakingError::AmountNotPositive))
    } else if old.amount + amount > i128::MAX {
        (s, Err(StakingError::StakeOverflow))
    } else {
        (
            StakingView {
                stakes: s.stakes.insert(
                    attestor,
                    Stake { amount: (old.amount + amount) as i128, locked: old.locked },
                ),
                ..s
            },
            Ok(()),
        )
    }
}

pub open spec fn spec_request_unstake(s: StakingView, attestor: u64, amount: i128, now: u64) -> (StakingView, Result<(), StakingError>) {
    match s.config {
        None => (s, Err(StakingError::NotInitialized)),
        Some(cfg) => if amount <= 0 {
            (s, Err(StakingError::AmountNotPositive))
        } else if !s.stakes.contains_key(attestor) {
            (s, Err(StakingError::NoStake))
        } else if s.pending.contains_key(attestor) {
            (s, Err(StakingError::UnstakeAlreadyPending))
        } else if amount > s.stakes[attestor].amount - s.stakes[attestor].locked {
            (s, Err(StakingError::InsufficientUnlockedStake))
        } else if now + cfg.unbonding_period > u64::MAX {
            (s, Err(StakingError::UnlockOverflow))
        } else {
            let st = s.stakes[attestor];
            (
                StakingView {
                    stakes: s.stakes.insert(
                        attestor,
                        Stake { amount: st.amount, locked: (st.locked + amount) as i128 },
                    ),
                    pending: s.pending.insert(
                        attestor,
                        PendingUnstake {
                            amount,
                            unlock_timestamp: (now + cfg.unbonding_period) as u64,
                        },
                    ),
                    ..s
                },
                Ok(()),
            )
        },
    }
}

pub open spec fn spec_withdraw_unstaked(s: StakingView, attestor: u64, now: u64) -> (StakingView, Result<i128, StakingError>) {
    if s.config is None {
        (s, Err(StakingError::NotInitialized))
    } else if !s.pending.contains_key(attestor) {
        (s, Err(StakingError::NoPendingUnstake))
    } else if now < s.pending[attestor].unlock_timestamp {
        (s, Err(StakingError::UnbondingNotElapsed))
    } else {
        let p = s.pending[attestor];
        let st = stake_or_zero(s, attestor);
        (
            StakingView {
                stakes: s.stakes.insert(
                    attestor,
                    Stake {
                        amount: (st.amount - p.amount) as i128,
                        locked: (st.locked - p.amount) as i128,
                    },
                ),
                pending: s.pending.remove(attestor),
                ..s
            },
            Ok(p.amount),
        )
    }
}

/// The part of a requested slash that is actually taken: the request, capped by the stake.
pub open spec fn slash_taken(stake_amount: int, requested: int) -> int {
    min_int(requested, stake_amount)
}

/// The stake left after `taken` is removed; the locked part shrinks to stay within it.
pub open spec fn stake_after_slash(st: Stake, taken: int) -> Stake {
    Stake {
        amount: (st.amount - taken) as i128,
        locked: min_int(st.locked as int, st.amount - taken) as i128,
    }
}

pub open spec fn spec_slash(
    s: StakingView,
    caller: u64,
    attestor: u64,
    amount: i128,
    dispute_id: u64,
) -> (StakingView, Result<SlashReceipt, StakingError>) {
    match s.config {
        None => (s, Err(StakingError::NotInitialized)),
        Some(cfg) => if caller != cfg.dispute_contract {
            (s, Err(StakingError::NotDisputeContract))
        } else if amount <= 0 {
            (s, Err(StakingError::SlashAmountNotPositive))
        } else if s.processed.contains(dispute_id) {
            (s, Err(StakingError::DisputeAlreadyProcessed))
        } else if !s.stakes.contains_key(attestor) {
            (s, Err(StakingError::NoStake))
        } else if s.stakes[attestor].amount == 0 {
            (s, Ok(SlashReceipt { outcome: SlashOutcome::NoSlash, amount: 0 }))
        } else {
            let st = s.stakes[attestor];
            let taken = slash_taken(st.amount as int, amount as int);
            let after = stake_after_slash(st, taken);
            let pending = if s.pending.contains_key(attestor) {
                s.pending.insert(
                    attestor,
                    PendingUnstake {
                        amount: min_int(s.pending[attestor].amount as int, after.locked as int) as i128,
                        unlock_timestamp: s.pending[attestor].unlock_timestamp,
                    },
                )
            } else {
                s.pending
            };
            (
                StakingView {
                    config: s.config,
                    stakes: s.stakes.insert(attestor, after),
                    pending,
                    processed: s.processed.insert(dispute_id),
                },
                Ok(SlashReceipt { outcome: SlashOutcome::Slashed, amount: taken as i128 }),
            )
        },
    }
}

impl StakingContract {
    /// The storage invariant: `staking_wf` of the view, which every `law_*` over the view assumes.
    pub open spec fn wf(&self) -> bool {
        staking_wf(self@)
    }

    /// Empty, uninitialized storage.
    pub fn new() -> (r: Self)
        ensures
            r.wf(),
            r@.config is None,
            r@.stakes == Map::<u64, Stake>::empty(),
            r@.pending == Map::<u64, PendingUnstake>::empty(),
            r@.processed == Set::<u64>::empty(),
    {
        StakingContract {
            config: None,
            stakes: HashMap::new(),
            pending: HashMap::new(),
            processed: HashSet::new(),
        }
    }

    /// Stores the configuration; refused once initialized.
    pub fn initialize(
        &mut self,
        admin: u64,
        token: u64,
        treasury: u64,
        min_stake: i128,
        dispute_contract: u64,
        unbonding_period: u64,
    ) -> (r: Result<(), StakingError>)
        requires
            old(self).wf(),
        ensures
            final(self).wf(),
            (final(self)@, r) == spec_initialize(
                old(self)@,
                StakingConfig { admin, token, treasury, min_stake, dispute_contract, unbonding_period },
            ),
    {
        if self.config.is_some() {
            return Err(StakingError::AlreadyInitialized);
        }
        self.config = Some(
            StakingConfig { admin, token, treasury, min_stake, dispute_contract, unbonding_period },
        );
        assert(self@.stakes == old(self)@.stakes && self@.pending == old(self)@.pending);
        Ok(())
    }

    /// The stored configuration, if initialized.
    pub fn get_config(&self) -> (r: Option<StakingConfig>)
        ensures
            r == self@.config,
    {
        self.config
    }

    /// Replaces the dispute contract allowed to slash; admin only.
    pub fn set_dispute_contract(&mut self, caller: u64, new_contract: u64) -> (r: Result<(), StakingError>)
        requires
            old(self).wf(),
        ensures
            final(self).wf(),
            (final(self)@, r) == spec_set_dispute_contract(old(self)@, caller, new_contract),
    {
        match self.config {
            None => Err(StakingError::NotInitialized),
            Some(cfg) => {
                if caller != cfg.admin {
                    return Err(StakingError::NotAdmin);
                }
                self.config = Some(StakingConfig { dispute_contract: new_contract, ..cfg });
                assert(self@.stakes == old(self)@.stakes && self@.pending == old(self)@.pending);
                Ok(())
            },
        }
    }

    /// The stake of `attestor`, if any was ever recorded.
    pub fn get_stake(&self, attestor: u64) -> (r: Option<Stake>)
        ensures
            r == (if self@.stakes.contains_key(attestor) {
                Some(self@.stakes[attestor])
            } else {
                None::<Stake>
            }),
    {
        match self.stakes.get(&attestor) {
            Some(s) => Some(*s),
            None => None,
        }
    }

    /// The pending unstake request of `attestor`, if any.
    pub fn get_pending_unstake(&self, attestor: u64) -> (r: Option<PendingUnstake>)
        ensures
            r == (if self@.pending.contains_key(attestor) {
                Some(self@.pending[attestor])
            } else {
                None::<PendingUnstake>
            }),
    {
        match self.pending.get(&attestor) {
            Some(p) => Some(*p),
            None => None,
        }
    }

    /// Whether `attestor`'s stake reaches the configured minimum.
    pub fn is_eligible(&self, attestor: u64) -> (r: Result<bool, StakingError>)
        ensures
            match self@.config {
                None => r == Err::<bool, StakingError>(StakingError::NotInitialized),
                Some(cfg) => r == Ok::<bool, StakingError>(
                    self@.stakes.contains_key(attestor) && self@.stakes[attestor].amount
                        >= cfg.min_stake,
                ),
            },
    {
        match self.config {
            None => Err(StakingError::NotInitialized),
            Some(cfg) => match self.stakes.get(&attestor) {
                Some(s) => Ok(s.amount >= cfg.min_stake),
                None => Ok(false),
            },
        }
    }

    /// Adds `amount` to `attestor`'s stake; the caller pulls `amount` of the
    /// staking token from the attestor into the contract.
    pub fn stake(&mut self, attestor: u64, amount: i128) -> (r: Result<(), StakingError>)
        requires
            old(self).wf(),
        ensures
            final(self).wf(),
            (final(self)@, r) == spec_stake(old(self)@, attestor, amount),
    {
        if self.config.is_none() {
            return Err(StakingError::NotInitialized);
        }
        if amount <= 0 {
            return Err(StakingError::AmountNotPositive);
        }
        let prev = match self.stakes.get(&attestor) {
            Some(s) => *s,
            None => Stake { amount: 0, locked: 0 },
        };
        let new_amount = match prev.amount.checked_add(amount) {
            Some(v) => v,
            None => return Err(StakingError::StakeOverflow),
        };
        self.stakes.insert(attestor, Stake { amount: new_amount, locked: prev.locked });
        assert(self@ =~= spec_stake(old(self)@, attestor, amount).0);
        Ok(())
    }

    /// Locks `amount` of the unlocked stake and queues it for withdrawal after
    /// the unbonding period, counted from `now`.
    pub fn request_unstake(&mut self, attestor: u64, amount: i128, now: u64) -> (r: Result<(), StakingError>)
        requires
            old(self).wf(),
        ensures
            final(self).wf(),
            (final(self)@, r) == spec_request_unstake(old(self)@, attestor, amount, now),
    {
        let cfg = match self.config {
            None => return Err(StakingError::NotInitialized),
            Some(c) => c,
        };
        if amount <= 0 {
            return Err(StakingError::AmountNotPositive);
        }
        let st = match self.stakes.get(&attestor) {
            Some(s) => *s,
            None => return Err(StakingError::NoStake),
        };
        if self.pending.contains_key(&attestor) {
            return Err(StakingError::UnstakeAlreadyPending);
        }
        assert(self@.stakes.contains_key(attestor));
        if amount > st.amount - st.locked {
            return Err(StakingError::InsufficientUnlockedStake);
        }
        let unlock = match now.checked_add(cfg.unbonding_period) {
            Some(t) => t,
            None => return Err(StakingError::UnlockOverflow),
        };
        self.stakes.insert(attestor, Stake { amount: st.amount, locked: st.locked + amount });
        self.pending.insert(attestor, PendingUnstake { amount, unlock_timestamp: unlock });
        assert(self@ =~= spec_request_unstake(old(self)@, attestor, amount, now).0);
        Ok(())
    }

    /// Completes a pending unstake once `now` has reached its unlock time;
    /// returns the amount the caller pays back to the attestor.
    pub fn withdraw_unstaked(&mut self, attestor: u64, now: u64) -> (r: Result<i128, StakingError>)
        requires
            old(self).wf(),
        ensures
            final(self).wf(),
            (final(self)@, r) == spec_withdraw_unstaked(old(self)@, attestor, now),
    {
        if self.config.is_none() {
            return Err(StakingError::NotInitialized);
        }
        let p = match self.pending.get(&attestor) {
            Some(p) => *p,
            None => return Err(StakingError::NoPendingUnstake),
        };
        if now < p.unlock_timestamp {
            return Err(StakingError::UnbondingNotElapsed);
        }
        let st = match self.stakes.get(&attestor) {
            Some(s) => *s,
            None => Stake { amount: 0, locked: 0 },
        };
        self.stakes.insert(
            attestor,
            Stake { amount: st.amount - p.amount, locked: st.locked - p.amount },
        );
        self.pending.remove(&attestor);
        assert(self@ =~= spec_withdraw_unstaked(old(self)@, attestor, now).0);
        Ok(p.amount)
    }

    /// Slashes up to `amount` of `attestor`'s stake for dispute `dispute_id`;
    /// only the configured dispute contract may call it, and each dispute id
    /// is honoured once. The receipt's amount is owed to the treasury.
    pub fn slash(&mut self, caller: u64, attestor: u64, amount: i128, dispute_id: u64) -> (r: Result<
        SlashReceipt,
        StakingError,
    >)
        requires
            old(self).wf(),
        ensures
            final(self).wf(),
            (final(self)@, r) == spec_slash(old(self)@, caller, attestor, amount, dispute_id),
    {
        let cfg = match self.config {
            None => return Err(StakingError::NotInitialized),
            Some(c) => c,
        };
        if caller != cfg.dispute_contract {
            return Err(StakingError::NotDisputeContract);
        }
        if amount <= 0 {
            return Err(StakingError::SlashAmountNotPositive);
        }
        if self.processed.contains(&dispute_id) {
            return Err(StakingError::DisputeAlreadyProcessed);
        }
        let st = match self.stakes.get(&attestor) {
            Some(s) => *s,
            None => return Err(StakingError::NoStake),
        };
        if st.amount == 0 {
            return Ok(SlashReceipt { outcome: SlashOutcome::NoSlash, amount: 0 });
        }
        let taken = if amount < st.amount {
            amount
        } else {
            st.amount
        };
        let new_amount = st.amount - taken;
        let new_locked = if st.locked < new_amount {
            st.locked
        } else {
            new_amount
        };
        self.stakes.insert(attestor, Stake { amount: new_amount, locked: new_locked });
        match self.pending.get(&attestor) {
            Some(p) => {
                let p = *p;
                let reduced = if p.amount < new_locked {
                    p.amount
                } else {
                    new_locked
                };
                self.pending.insert(
                    attestor,
                    PendingUnstake { amount: reduced, unlock_timestamp: p.unlock_timestamp },
                );
            },
            None => {},
        }
        self.processed.insert(dispute_id);
        assert(self@ =~= spec_slash(old(self)@, caller, attestor, amount, dispute_id).0);
        Ok(SlashReceipt { outcome: SlashOutcome::Slashed, amount: taken })
    }
}


/// What a slash handed to the treasury: the receipt's amount, zero when refused.
pub open spec fn receipt_amount(r: Result<SlashReceipt, StakingError>) -> int {
    match r {
        Ok(rc) => rc.amount as int,
        Err(_) => 0,
    }
}

/// Sum of a sequence of amounts.
pub open spec fn sum_amounts(amounts: Seq<i128>) -> int
    decreases amounts.len(),
{
    if amounts.len() == 0 {
        0
    } else {
        sum_amounts(amounts.drop_last()) + amounts.last()
    }
}

/// Slashes `attestor` once for each amount, dispute `ids[i]` for `amounts[i]`,
/// in order; yields the final storage and the total sent to the treasury.
pub open spec fn slash_series(
    s: StakingView,
    caller: u64,
    attestor: u64,
    amounts: Seq<i128>,
    ids: Seq<u64>,
) -> (StakingView, int)
    decreases amounts.len(),
{
    if amounts.len() == 0 {
        (s, 0)
    } else {
        let prev = slash_series(s, caller, attestor, amounts.drop_last(), ids);
        let step = spec_slash(prev.0, caller, attestor, amounts.last(), ids[amounts.len() - 1]);
        (step.0, prev.1 + receipt_amount(step.1))
    }
}

/// Exact slash conservation: a successful slash takes exactly
/// `min(amount, stake)` from the attestor, sends exactly that to the
/// treasury, keeps the locked part within the stake and leaves every other
/// attestor untouched. When the request reaches the whole stake the stake
/// ends at zero (over-slash clamping).
pub proof fn law_slash_conservation(
    s: StakingView,
    caller: u64,
    attestor: u64,
    amount: i128,
    dispute_id: u64,
)
    requires
        staking_wf(s),
    ensures
        ({
            let (t, r) = spec_slash(s, caller, attestor, amount, dispute_id);
            r matches Ok(rc) ==> rc.outcome == SlashOutcome::Slashed ==> {
                &&& rc.amount == min_int(amount as int, s.stakes[attestor].amount as int)
                &&& 0 < rc.amount <= amount
                &&& t.stakes[attestor].amount + rc.amount == s.stakes[attestor].amount
                &&& (amount >= s.stakes[attestor].amount ==> t.stakes[attestor].amount == 0
                    && rc.amount == s.stakes[attestor].amount)
                &&& 0 <= t.stakes[attestor].locked <= t.stakes[attestor].amount
                &&& forall|b: u64| b != attestor ==> t.stakes.contains_key(b) == s.stakes.contains_key(b)
                    && (s.stakes.contains_key(b) ==> t.stakes[b] == s.stakes[b])
            }
        }),
{
}

/// A refused slash, or one that finds a zero stake, changes nothing: in
/// particular a slash of a non-positive amount does not use up its dispute id.
pub proof fn law_slash_refusal_changes_nothing(
    s: StakingView,
    caller: u64,
    attestor: u64,
    amount: i128,
    dispute_id: u64,
)
    ensures
        ({
            let (t, r) = spec_slash(s, caller, attestor, amount, dispute_id);
            (r is Err || r == Ok::<SlashReceipt, StakingError>(
                SlashReceipt { outcome: SlashOutcome::NoSlash, amount: 0 },
            )) ==> t == s
        }),
        amount <= 0 ==> spec_slash(s, caller, attestor, amount, dispute_id).0 == s,
{
}

/// Slashing keeps every staking invariant: the locked part stays within the
/// stake, a pending unstake shrinks to `min(pending, locked)` and keeps its
/// record, and no pending unstake appears where there was none.
pub proof fn law_slash_preserves_invariants(
    s: StakingView,
    caller: u64,
    attestor: u64,
    amount: i128,
    dispute_id: u64,
)
    requires
        staking_wf(s),
    ensures
        staking_wf(spec_slash(s, caller, attestor, amount, dispute_id).0),
        ({
            let t = spec_slash(s, caller, attestor, amount, dispute_id).0;
            &&& t.pending.contains_key(attestor) == s.pending.contains_key(attestor)
            &&& s.pending.contains_key(attestor) ==> t.pending[attestor].amount == min_int(
                s.pending[attestor].amount as int,
                t.stakes[attestor].locked as int,
            )
        }),
{
}

/// A dispute id slashes at most once: after a successful slash for
/// `dispute_id`, any further slash with that id, of any attestor, is refused
/// with `DisputeAlreadyProcessed`.
pub proof fn law_dispute_id_single_use(
    s: StakingView,
    caller: u64,
    attestor: u64,
    amount: i128,
    other_attestor: u64,
    other_amount: i128,
    dispute_id: u64,
)
    requires
        staking_wf(s),
        spec_slash(s, caller, attestor, amount, dispute_id).1 matches Ok(rc) && rc.outcome
            == SlashOutcome::Slashed,
        other_amount > 0,
    ensures
        spec_slash(
            spec_slash(s, caller, attestor, amount, dispute_id).0,
            caller,
            other_attestor,
            other_amount,
            dispute_id,
        ).1 == Err::<SlashReceipt, StakingError>(StakingError::DisputeAlreadyProcessed),
{
}

proof fn lemma_slash_series(
    s: StakingView,
    caller: u64,
    attestor: u64,
    amounts: Seq<i128>,
    ids: Seq<u64>,
)
    requires
        staking_wf(s),
        s.config matches Some(cfg) && cfg.dispute_contract == caller,
        s.stakes.contains_key(attestor),
        amounts.len() <= ids.len(),
        forall|i: int| 0 <= i < amounts.len() ==> #[trigger] amounts[i] > 0,
        forall|i: int, j: int| 0 <= i < j < ids.len() ==> ids[i] != ids[j],
        forall|i: int| 0 <= i < ids.len() ==> !s.processed.contains(#[trigger] ids[i]),
    ensures
        ({
            let (t, total) = slash_series(s, caller, attestor, amounts, ids);
            &&& staking_wf(t)
            &&& t.config == s.config
            &&& t.stakes.contains_key(attestor)
            &&& t.stakes[attestor].amount == (if s.stakes[attestor].amount - sum_amounts(amounts) > 0 {
                s.stakes[attestor].amount - sum_amounts(amounts)
            } else {
                0
            })
            &&& total == min_int(s.stakes[attestor].amount as int, sum_amounts(amounts))
            &&& forall|x: u64| #[trigger]
                t.processed.contains(x) ==> s.processed.contains(x) || exists|j: int|
                    0 <= j < amounts.len() && ids[j] == x
        }),
    decreases amounts.len(),
{
    if amounts.len() > 0 {
        let pre = amounts.drop_last();
        assert forall|i: int| 0 <= i < pre.len() implies #[trigger] pre[i] > 0 by {
            assert(pre[i] == amounts[i]);
        }
        lemma_slash_series(s, caller, attestor, pre, ids);
        let prev = slash_series(s, caller, attestor, pre, ids);
        let n = amounts.len() - 1;
        let id = ids[n];
        assert(!prev.0.processed.contains(id)) by {
            if prev.0.processed.contains(id) {
                let j = choose|j: int| 0 <= j < pre.len() && ids[j] == id;
                assert(ids[j] != ids[n]);
            }
        }
        let step = spec_slash(prev.0, caller, attestor, amounts.last(), id);
        assert(amounts.last() == amounts[n]);
        law_slash_preserves_invariants(prev.0, caller, attestor, amounts.last(), id);
        assert forall|x: u64| #[trigger]
            step.0.processed.contains(x) implies s.processed.contains(x) || exists|j: int|
                0 <= j < amounts.len() && ids[j] == x by {
            if x != id && prev.0.processed.contains(x) {
                if !s.processed.contains(x) {
                    let j = choose|j: int| 0 <= j < pre.len() && ids[j] == x;
                    assert(0 <= j < amounts.len() && ids[j] == x);
                }
            } else if x == id {
                assert(0 <= n < amounts.len() && ids[n] == x);
            }
        }
    }
}

/// Sequential slashes accumulate: slashing an attestor with positive amounts
/// under fresh, distinct dispute ids leaves `max(0, stake - sum)` staked and
/// sends `min(stake, sum)` to the treasury in total.
pub proof fn law_sequential_slashes_accumulate(
    s: StakingView,
    caller: u64,
    attestor: u64,
    amounts: Seq<i128>,
    ids: Seq<u64>,
)
    requires
        staking_wf(s),
        s.config matches Some(cfg) && cfg.dispute_contract == caller,
        s.stakes.contains_key(attestor),
        amounts.len() == ids.len(),
        forall|i: int| 0 <= i < amounts.len() ==> #[trigger] amounts[i] > 0,
        forall|i: int, j: int| 0 <= i < j < ids.len() ==> ids[i] != ids[j],
        forall|i: int| 0 <= i < ids.len() ==> !s.processed.contains(#[trigger] ids[i]),
    ensures
        ({
            let (t, total) = slash_series(s, caller, attestor, amounts, ids);
            let before = s.stakes[attestor].amount as int;
            &&& t.stakes[attestor].amount == (if before - sum_amounts(amounts) > 0 {
                before - sum_amounts(amounts)
            } else {
                0
            })
            &&& total == min_int(before, sum_amounts(amounts))
            &&& 0 <= t.stakes[attestor].locked <= t.stakes[attestor].amount
        }),
{
    lemma_slash_series(s, caller, attestor, amounts, ids);
}

/// Staking adds to the stake: after a successful `stake(attestor, amount)`
/// the attestor's stake is its previous amount (zero when it had none) plus
/// `amount`, its locked part is unchanged, and no other stake and no pending
/// unstake changes. It succeeds exactly when the contract is initialized,
/// `amount` is positive and the sum fits in an `i128`.
pub proof fn law_stake_adds(s: StakingView, attestor: u64, amount: i128)
    ensures
        ({
            let (t, r) = spec_stake(s, attestor, amount);
            let before = if s.stakes.contains_key(attestor) {
                s.stakes[attestor].amount as int
            } else {
                0
            };
            let locked = if s.stakes.contains_key(attestor) {
                s.stakes[attestor].locked as int
            } else {
                0
            };
            &&& r is Ok <==> (s.config is Some && amount > 0 && before + amount <= i128::MAX)
            &&& r is Ok ==> {
                &&& t.stakes.contains_key(attestor)
                &&& t.stakes[attestor].amount == before + amount
                &&& t.stakes[attestor].locked == locked
                &&& t.pending == s.pending
                &&& forall|b: u64| b != attestor ==> t.stakes.contains_key(b) == s.stakes.contains_key(b)
                    && (s.stakes.contains_key(b) ==> t.stakes[b] == s.stakes[b])
            }
        }),
{
}

/// Unstaking returns what was queued: an attestor with no pending request
/// that queues `amount` at time `now` and withdraws at any time `later` from
/// the unlock time on is paid exactly `amount`, keeps its stake less `amount`,
/// and has nothing locked or pending afterwards.
pub proof fn law_unstake_round_trip(s: StakingView, attestor: u64, amount: i128, now: u64, later: u64)
    requires
        staking_wf(s),
        spec_request_unstake(s, attestor, amount, now).1 is Ok,
        later >= spec_request_unstake(s, attestor, amount, now).0.pending[attestor].unlock_timestamp,
    ensures
        ({
            let mid = spec_request_unstake(s, attestor, amount, now).0;
            let (t, r) = spec_withdraw_unstaked(mid, attestor, later);
            &&& s.config matches Some(cfg) && mid.pending[attestor].unlock_timestamp == now + cfg.unbonding_period
            &&& r == Ok::<i128, StakingError>(amount)
            &&& t.stakes[attestor].amount == s.stakes[attestor].amount - amount
            &&& t.stakes[attestor].locked == 0
            &&& !t.pending.contains_key(attestor)
        }),
{
}

} // verus!
