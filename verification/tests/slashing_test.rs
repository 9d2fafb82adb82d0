//! Attestor staking: slashing by the dispute contract, its interplay with
//! unstaking, and eligibility. Token balances are kept by a small ledger in
//! the harness that performs the transfers the contract asks for.

use std::collections::HashMap;

use proptest::test_runner::TestRunner;
use veritasor::staking::{SlashOutcome, StakingContract, StakingError};

const ADMIN: u64 = 1;
const ATTESTOR: u64 = 2;
const TREASURY: u64 = 3;
const DISPUTE_CONTRACT: u64 = 4;
const TOKEN: u64 = 5;
const OTHER_CONTRACT: u64 = 6;

/// The staking contract together with the token balances it moves.
struct Harness {
    client: StakingContract,
    balances: HashMap<u64, i128>,
    now: u64,
}

impl Harness {
    fn new() -> Self {
        Harness { client: StakingContract::new(), balances: HashMap::new(), now: 0 }
    }

    fn balance(&self, who: u64) -> i128 {
        *self.balances.get(&who).unwrap_or(&0)
    }

    fn mint(&mut self, who: u64, amount: i128) {
        let b = self.balance(who);
        self.balances.insert(who, b + amount);
    }

    fn transfer(&mut self, from: u64, to: u64, amount: i128) {
        let fb = self.balance(from);
        assert!(fb >= amount, "balance is not sufficient to spend");
        self.balances.insert(from, fb - amount);
        self.mint(to, amount);
    }

    fn initialize(&mut self, min_stake: i128, dispute_contract: u64) {
        ok(self.client.initialize(ADMIN, TOKEN, TREASURY, min_stake, dispute_contract, 0));
    }

    fn stake(&mut self, attestor: u64, amount: i128) {
        ok(self.client.stake(attestor, amount));
        self.transfer(attestor, STAKING_CONTRACT, amount);
    }

    fn request_unstake(&mut self, attestor: u64, amount: i128) {
        ok(self.client.request_unstake(attestor, amount, self.now));
    }

    fn withdraw_unstaked(&mut self, attestor: u64) {
        let paid = ok(self.client.withdraw_unstaked(attestor, self.now));
        self.transfer(STAKING_CONTRACT, attestor, paid);
    }

    fn try_slash(
        &mut self,
        caller: u64,
        attestor: u64,
        amount: i128,
        dispute_id: u64,
    ) -> Result<SlashOutcome, StakingError> {
        let receipt = self.client.slash(caller, attestor, amount, dispute_id)?;
        let treasury = self.client.get_config().unwrap().treasury;
        self.transfer(STAKING_CONTRACT, treasury, receipt.amount);
        Ok(receipt.outcome)
    }

    fn slash(&mut self, caller: u64, attestor: u64, amount: i128, dispute_id: u64) -> SlashOutcome {
        ok(self.try_slash(caller, attestor, amount, dispute_id))
    }

    fn stake_amount(&self, attestor: u64) -> i128 {
        self.client.get_stake(attestor).unwrap().amount
    }
}

const STAKING_CONTRACT: u64 = 100;

fn ok<T>(r: Result<T, StakingError>) -> T {
    match r {
        Ok(v) => v,
        Err(e) => panic!("{}", e.message()),
    }
}

/// Initializes with min_stake 1000 and no unbonding period, mints and stakes
/// `stake_amount` for the attestor.
fn setup(stake_amount: i128) -> Harness {
    let mut h = Harness::new();
    h.mint(ATTESTOR, stake_amount);
    h.initialize(1000, DISPUTE_CONTRACT);
    h.stake(ATTESTOR, stake_amount);
    h
}

/// Like `setup` with min_stake 1, as the property tests use.
fn setup_min(stake_amount: i128, min_stake: i128) -> Harness {
    let mut h = Harness::new();
    h.mint(ATTESTOR, stake_amount);
    h.initialize(min_stake, DISPUTE_CONTRACT);
    h.stake(ATTESTOR, stake_amount);
    h
}

#[test]
fn test_slash_success() {
    let mut h = Harness::new();
    h.mint(ATTESTOR, 10000);
    h.initialize(1000, DISPUTE_CONTRACT);
    h.stake(ATTESTOR, 5000);

    let initial_treasury_balance = h.balance(TREASURY);
    let outcome = h.slash(DISPUTE_CONTRACT, ATTESTOR, 2000, 1);
    assert_eq!(outcome, SlashOutcome::Slashed);

    assert_eq!(h.stake_amount(ATTESTOR), 3000);
    assert_eq!(h.balance(TREASURY), initial_treasury_balance + 2000);
}

#[test]
fn test_slash_partial_when_insufficient_stake() {
    let mut h = Harness::new();
    h.mint(ATTESTOR, 10000);
    h.initialize(1000, DISPUTE_CONTRACT);
    h.stake(ATTESTOR, 2000);

    let initial_treasury_balance = h.balance(TREASURY);
    let outcome = h.slash(DISPUTE_CONTRACT, ATTESTOR, 5000, 1);
    assert_eq!(outcome, SlashOutcome::Slashed);

    assert_eq!(h.stake_amount(ATTESTOR), 0);
    assert_eq!(h.balance(TREASURY), initial_treasury_balance + 2000);
}

#[test]
#[should_panic(expected = "dispute already processed")]
fn test_slash_double_slashing_prevented() {
    let mut h = Harness::new();
    h.mint(ATTESTOR, 10000);
    h.initialize(1000, DISPUTE_CONTRACT);
    h.stake(ATTESTOR, 5000);

    h.slash(DISPUTE_CONTRACT, ATTESTOR, 2000, 1);
    h.slash(DISPUTE_CONTRACT, ATTESTOR, 1000, 1);
}

#[test]
fn test_slash_multiple_disputes() {
    let mut h = Harness::new();
    h.mint(ATTESTOR, 10000);
    h.initialize(1000, DISPUTE_CONTRACT);
    h.stake(ATTESTOR, 5000);

    let initial_treasury_balance = h.balance(TREASURY);
    h.slash(DISPUTE_CONTRACT, ATTESTOR, 1000, 1);
    h.slash(DISPUTE_CONTRACT, ATTESTOR, 1500, 2);

    assert_eq!(h.stake_amount(ATTESTOR), 2500);
    assert_eq!(h.balance(TREASURY), initial_treasury_balance + 2500);
}

#[test]
fn test_slash_no_stake() {
    let mut h = Harness::new();
    h.initialize(1000, DISPUTE_CONTRACT);

    let result = h.try_slash(DISPUTE_CONTRACT, ATTESTOR, 1000, 1);
    assert!(result.is_err());
}

#[test]
fn test_slash_zero_stake_returns_no_slash() {
    let mut h = Harness::new();
    h.mint(ATTESTOR, 10000);
    h.initialize(1000, DISPUTE_CONTRACT);
    h.stake(ATTESTOR, 1000);

    h.slash(DISPUTE_CONTRACT, ATTESTOR, 1000, 1);

    let treasury_balance_before = h.balance(TREASURY);
    let outcome = h.slash(DISPUTE_CONTRACT, ATTESTOR, 500, 2);
    assert_eq!(outcome, SlashOutcome::NoSlash);

    assert_eq!(
        h.balance(TREASURY),
        treasury_balance_before,
        "treasury balance must not change when NoSlash is returned"
    );
}

#[test]
fn test_dispute_resolution_triggers_slashing() {
    let mut h = Harness::new();
    h.mint(ATTESTOR, 10000);
    h.initialize(1000, DISPUTE_CONTRACT);
    h.stake(ATTESTOR, 5000);

    let initial_treasury = h.balance(TREASURY);
    let slash_amount = 1500;
    let outcome = h.slash(DISPUTE_CONTRACT, ATTESTOR, slash_amount, 42);
    assert_eq!(outcome, SlashOutcome::Slashed);
    assert_eq!(h.stake_amount(ATTESTOR), 3500);
    assert_eq!(h.balance(TREASURY), initial_treasury + slash_amount);
}

#[test]
#[should_panic(expected = "slash amount must be positive")]
fn test_slash_amount_zero_panics() {
    let mut h = setup(5000);
    h.slash(DISPUTE_CONTRACT, ATTESTOR, 0, 1);
}

#[test]
fn test_slash_zero_amount_does_not_consume_dispute_id() {
    let stake_amount = 5000_i128;
    let mut h = setup(stake_amount);
    let dispute_id: u64 = 42;

    let result = h.try_slash(DISPUTE_CONTRACT, ATTESTOR, 0, dispute_id);
    assert!(result.is_err(), "slash with amount=0 should panic");

    assert_eq!(
        h.stake_amount(ATTESTOR),
        stake_amount,
        "stake.amount must be unchanged after zero-amount slash"
    );

    let outcome = h.slash(DISPUTE_CONTRACT, ATTESTOR, 1000, dispute_id);
    assert_eq!(
        outcome,
        SlashOutcome::Slashed,
        "valid slash with previously-failed dispute_id should succeed"
    );
    assert_eq!(
        h.stake_amount(ATTESTOR),
        stake_amount - 1000,
        "stake.amount should reflect the valid slash"
    );
}

#[test]
fn test_slash_pending_reduced_to_zero_record_preserved() {
    let stake_amount = 5000_i128;
    let mut h = setup(stake_amount);

    h.request_unstake(ATTESTOR, stake_amount);
    let pending_before = h.client.get_pending_unstake(ATTESTOR).unwrap();
    assert_eq!(pending_before.amount, stake_amount);

    let outcome = h.slash(DISPUTE_CONTRACT, ATTESTOR, stake_amount, 1);
    assert_eq!(outcome, SlashOutcome::Slashed);

    let pending_after = h.client.get_pending_unstake(ATTESTOR);
    assert!(
        pending_after.is_some(),
        "PendingUnstake record must be preserved after slash reduces it to zero"
    );
    assert_eq!(pending_after.unwrap().amount, 0, "pending.amount must be 0 after full slash");

    let stake_after = h.client.get_stake(ATTESTOR).unwrap();
    assert_eq!(stake_after.amount, 0);
    assert_eq!(stake_after.locked, 0);
}

#[test]
fn test_slash_pending_zero_then_withdraw() {
    let stake_amount = 5000_i128;
    let mut h = setup(stake_amount);

    h.request_unstake(ATTESTOR, stake_amount);
    let outcome = h.slash(DISPUTE_CONTRACT, ATTESTOR, stake_amount, 1);
    assert_eq!(outcome, SlashOutcome::Slashed);

    let pending = h.client.get_pending_unstake(ATTESTOR).unwrap();
    assert_eq!(pending.amount, 0);

    h.now = pending.unlock_timestamp + 1;
    let attestor_balance_before = h.balance(ATTESTOR);
    h.withdraw_unstaked(ATTESTOR);

    assert_eq!(
        h.balance(ATTESTOR),
        attestor_balance_before,
        "attestor should receive 0 tokens when pending.amount is 0"
    );
    assert!(
        h.client.get_pending_unstake(ATTESTOR).is_none(),
        "PendingUnstake record must be removed after withdraw_unstaked"
    );
}

#[test]
fn test_slash_after_withdraw_unstaked() {
    let stake_amount = 5000_i128;
    let unstake_amount = 2000_i128;
    let remaining_stake = stake_amount - unstake_amount;
    let slash_amount = 1000_i128;

    let mut h = setup(stake_amount);

    h.request_unstake(ATTESTOR, unstake_amount);
    let pending = h.client.get_pending_unstake(ATTESTOR).unwrap();
    assert_eq!(pending.amount, unstake_amount);

    h.now = pending.unlock_timestamp + 1;

    let attestor_balance_before_withdraw = h.balance(ATTESTOR);
    h.withdraw_unstaked(ATTESTOR);
    let attestor_balance_after_withdraw = h.balance(ATTESTOR);

    assert_eq!(
        attestor_balance_after_withdraw,
        attestor_balance_before_withdraw + unstake_amount,
        "withdraw_unstaked should transfer exactly unstake_amount to attestor"
    );
    assert!(
        h.client.get_pending_unstake(ATTESTOR).is_none(),
        "PendingUnstake record must be removed after withdraw_unstaked"
    );

    let stake_after_withdraw = h.client.get_stake(ATTESTOR).unwrap();
    assert_eq!(
        stake_after_withdraw.amount, remaining_stake,
        "stake.amount should equal stake_amount - unstake_amount after withdrawal"
    );
    assert_eq!(stake_after_withdraw.locked, 0, "stake.locked should be 0 after withdrawal");

    let outcome = h.slash(DISPUTE_CONTRACT, ATTESTOR, slash_amount, 1);
    assert_eq!(outcome, SlashOutcome::Slashed);

    assert_eq!(
        h.stake_amount(ATTESTOR),
        remaining_stake - slash_amount,
        "slash must only reduce the remaining stake, not the already-withdrawn amount"
    );
    assert_eq!(
        h.balance(ATTESTOR),
        attestor_balance_after_withdraw,
        "attestor's withdrawn balance must not be affected by the subsequent slash"
    );
}

#[test]
#[should_panic]
fn test_frivolous_slashing_blocked() {
    let mut h = Harness::new();
    h.mint(ATTESTOR, 10000);
    h.initialize(1000, DISPUTE_CONTRACT);
    h.stake(ATTESTOR, 5000);

    h.slash(OTHER_CONTRACT, ATTESTOR, 2000, 99);
}

#[test]
fn test_dispute_contract_update_rejects_old_accepts_new() {
    let dispute_contract_a = DISPUTE_CONTRACT;
    let dispute_contract_b = OTHER_CONTRACT;

    let mut h = Harness::new();
    h.mint(ATTESTOR, 10000);
    h.initialize(1000, dispute_contract_a);
    h.stake(ATTESTOR, 5000);

    ok(h.client.set_dispute_contract(ADMIN, dispute_contract_b));

    let result = h.try_slash(dispute_contract_a, ATTESTOR, 1000, 1);
    assert!(result.is_err(), "slash from old dispute_contract_A must be rejected after update");

    let outcome = h.slash(dispute_contract_b, ATTESTOR, 1000, 2);
    assert_eq!(
        outcome,
        SlashOutcome::Slashed,
        "slash from new dispute_contract_B must succeed after update"
    );
    assert_eq!(h.stake_amount(ATTESTOR), 4000, "stake.amount should be reduced by the successful slash");
}

#[test]
fn test_eligibility_boundary_exactly_min_stake() {
    let stake_amount = 2000_i128;
    let min_stake = 1000_i128;
    let mut h = setup(stake_amount);

    let slash_amount = stake_amount - min_stake;
    let outcome = h.slash(DISPUTE_CONTRACT, ATTESTOR, slash_amount, 1);
    assert_eq!(outcome, SlashOutcome::Slashed);

    assert_eq!(h.stake_amount(ATTESTOR), min_stake, "stake.amount must equal min_stake after slash");
    assert!(
        ok(h.client.is_eligible(ATTESTOR)),
        "is_eligible must return true when stake.amount == min_stake"
    );
}

#[test]
fn test_eligibility_boundary_min_stake_minus_one() {
    let stake_amount = 2000_i128;
    let min_stake = 1000_i128;
    let mut h = setup(stake_amount);

    let slash_amount = stake_amount - (min_stake - 1);
    let outcome = h.slash(DISPUTE_CONTRACT, ATTESTOR, slash_amount, 1);
    assert_eq!(outcome, SlashOutcome::Slashed);

    assert_eq!(
        h.stake_amount(ATTESTOR),
        min_stake - 1,
        "stake.amount must equal min_stake - 1 after slash"
    );
    assert!(
        !ok(h.client.is_eligible(ATTESTOR)),
        "is_eligible must return false when stake.amount == min_stake - 1"
    );
}

#[test]
#[should_panic(expected = "dispute already processed")]
fn test_double_slash_different_attestor_same_dispute_id() {
    let stake_amount = 5000_i128;
    let mut h = setup(stake_amount);
    let attestor_a = ATTESTOR;
    let attestor_b = 7;
    h.mint(attestor_b, stake_amount);
    h.stake(attestor_b, stake_amount);

    let dispute_id: u64 = 42;
    let outcome = h.slash(DISPUTE_CONTRACT, attestor_a, 1000, dispute_id);
    assert_eq!(outcome, SlashOutcome::Slashed);

    h.slash(DISPUTE_CONTRACT, attestor_b, 1000, dispute_id);
}

const HALF: i128 = i128::MAX / 2;
const QUARTER: i128 = i128::MAX / 4;

#[test]
fn prop_exact_slash_conservation() {
    let mut runner = TestRunner::default();
    let result = runner.run(&(1_i128..=HALF, 1_i128..=HALF), |(stake_amount, slash_amount)| {
        let slash_amount = slash_amount.min(stake_amount);
        let mut h = setup_min(stake_amount, 1);

        let treasury_balance_before = h.balance(TREASURY);
        let outcome = h.slash(DISPUTE_CONTRACT, ATTESTOR, slash_amount, 1);

        assert_eq!(
            h.stake_amount(ATTESTOR),
            stake_amount - slash_amount,
            "stake.amount must equal stake_amount - slash_amount"
        );
        assert_eq!(
            h.balance(TREASURY) - treasury_balance_before,
            slash_amount,
            "treasury must increase by exactly slash_amount"
        );
        assert_eq!(outcome, SlashOutcome::Slashed);
        Ok(())
    });
    assert!(result.is_ok(), "{:?}", result);
}

#[test]
fn prop_over_slash_clamping() {
    let mut runner = TestRunner::default();
    let result = runner.run(&(1_i128..=HALF, 1_i128..=HALF), |(stake_amount, extra)| {
        let slash_amount = stake_amount.saturating_add(extra);
        let mut h = setup_min(stake_amount, 1);

        let treasury_before = h.balance(TREASURY);
        let outcome = h.slash(DISPUTE_CONTRACT, ATTESTOR, slash_amount, 1);

        assert_eq!(h.stake_amount(ATTESTOR), 0, "stake.amount must be 0 after over-slash");
        assert_eq!(
            h.balance(TREASURY) - treasury_before,
            stake_amount,
            "treasury must increase by exactly the original stake_amount"
        );
        assert_eq!(outcome, SlashOutcome::Slashed);
        Ok(())
    });
    assert!(result.is_ok(), "{:?}", result);
}

#[test]
fn prop_locked_invariant_preserved() {
    let mut runner = TestRunner::default();
    let strategy = (1_i128..=HALF, 0_i128..=HALF, 1_i128..=HALF);
    let result = runner.run(&strategy, |(stake_amount, locked_amount, slash_amount)| {
        let locked_amount = locked_amount.min(stake_amount);
        let mut h = setup_min(stake_amount, 1);
        if locked_amount > 0 {
            h.request_unstake(ATTESTOR, locked_amount);
        }
        h.slash(DISPUTE_CONTRACT, ATTESTOR, slash_amount, 1);

        let post = h.client.get_stake(ATTESTOR).unwrap();
        assert!(
            post.locked <= post.amount,
            "locked ({}) must be <= amount ({}) after slash",
            post.locked,
            post.amount
        );
        Ok(())
    });
    assert!(result.is_ok(), "{:?}", result);
}

#[test]
fn prop_pending_adjustment() {
    let mut runner = TestRunner::default();
    let strategy = (1_i128..=HALF, 1_i128..=HALF, 1_i128..=HALF);
    let result = runner.run(&strategy, |(stake_amount, locked_amount, slash_amount)| {
        let locked_amount = locked_amount.min(stake_amount);
        let mut h = setup_min(stake_amount, 1);
        h.request_unstake(ATTESTOR, locked_amount);
        h.slash(DISPUTE_CONTRACT, ATTESTOR, slash_amount, 1);

        let post = h.client.get_stake(ATTESTOR).unwrap();
        let pending = h.client.get_pending_unstake(ATTESTOR).unwrap();
        let expected_pending = locked_amount.min(post.locked);
        assert_eq!(
            pending.amount, expected_pending,
            "pending.amount ({}) must equal min(locked_amount={}, post_slash_locked={})",
            pending.amount, locked_amount, post.locked
        );
        Ok(())
    });
    assert!(result.is_ok(), "{:?}", result);
}

#[test]
fn prop_no_phantom_pending() {
    let mut runner = TestRunner::default();
    let result = runner.run(&(1_i128..=HALF, 1_i128..=HALF), |(stake_amount, slash_amount)| {
        let mut h = setup_min(stake_amount, 1);
        h.slash(DISPUTE_CONTRACT, ATTESTOR, slash_amount, 1);
        assert!(
            h.client.get_pending_unstake(ATTESTOR).is_none(),
            "get_pending_unstake must return None when no request_unstake was called"
        );
        Ok(())
    });
    assert!(result.is_ok(), "{:?}", result);
}

#[test]
fn prop_double_slash_prevention() {
    let mut runner = TestRunner::default();
    let strategy = (1_i128..=HALF, 1_i128..=HALF, 0_u64..=u64::MAX);
    let result = runner.run(&strategy, |(stake_amount, slash_amount, dispute_id)| {
        let slash_amount = slash_amount.min(stake_amount);
        let mut h = setup_min(stake_amount, 1);

        let outcome = h.slash(DISPUTE_CONTRACT, ATTESTOR, slash_amount, dispute_id);
        assert_eq!(outcome, SlashOutcome::Slashed);

        let second = h.try_slash(DISPUTE_CONTRACT, ATTESTOR, slash_amount, dispute_id);
        assert!(second.is_err(), "second slash with same dispute_id must return an error");
        Ok(())
    });
    assert!(result.is_ok(), "{:?}", result);
}

#[test]
fn prop_sequential_accumulation() {
    let mut runner = TestRunner::default();
    let strategy = (3_i128..=QUARTER, 1_i128..=QUARTER, 1_i128..=QUARTER, 1_i128..=QUARTER);
    let result = runner.run(&strategy, |(initial_stake, s1, s2, s3)| {
        let mut h = setup_min(initial_stake, 1);
        let treasury_before = h.balance(TREASURY);

        h.slash(DISPUTE_CONTRACT, ATTESTOR, s1, 1);
        let after_1 = h.client.get_stake(ATTESTOR).unwrap();
        assert!(after_1.locked <= after_1.amount, "locked <= amount after slash 1");

        h.slash(DISPUTE_CONTRACT, ATTESTOR, s2, 2);
        let after_2 = h.client.get_stake(ATTESTOR).unwrap();
        assert!(after_2.locked <= after_2.amount, "locked <= amount after slash 2");

        h.slash(DISPUTE_CONTRACT, ATTESTOR, s3, 3);
        let after_3 = h.client.get_stake(ATTESTOR).unwrap();
        assert!(after_3.locked <= after_3.amount, "locked <= amount after slash 3");

        let sum = s1.saturating_add(s2).saturating_add(s3);
        let expected_stake = (initial_stake - sum).max(0);
        assert_eq!(
            after_3.amount, expected_stake,
            "final stake.amount must equal max(0, initial_stake - sum)"
        );
        assert_eq!(
            h.balance(TREASURY) - treasury_before,
            initial_stake.min(sum),
            "total treasury increase must equal min(initial_stake, sum)"
        );
        Ok(())
    });
    assert!(result.is_ok(), "{:?}", result);
}

#[test]
fn prop_eligibility_reflects_post_slash_stake() {
    let mut runner = TestRunner::default();
    let strategy = (1_i128..=HALF, 1_i128..=HALF, 1_i128..=HALF);
    let result = runner.run(&strategy, |(stake_amount, min_stake, slash_amount)| {
        let stake_amount = stake_amount.max(min_stake);
        let slash_amount = slash_amount.min(stake_amount);
        let mut h = setup_min(stake_amount, min_stake);
        h.slash(DISPUTE_CONTRACT, ATTESTOR, slash_amount, 1);

        let post = h.client.get_stake(ATTESTOR).unwrap();
        let is_eligible = ok(h.client.is_eligible(ATTESTOR));
        assert_eq!(
            is_eligible,
            post.amount >= min_stake,
            "is_eligible ({}) must match post_slash_stake.amount ({}) >= min_stake ({})",
            is_eligible,
            post.amount,
            min_stake
        );
        Ok(())
    });
    assert!(result.is_ok(), "{:?}", result);
}

// ---- further cases ----

#[test]
fn slash_refused_before_initialize() {
    let mut c = StakingContract::new();
    assert_eq!(c.slash(DISPUTE_CONTRACT, ATTESTOR, 10, 1), Err(StakingError::NotInitialized));
}

#[test]
fn initialize_twice_is_refused() {
    let mut h = setup(1000);
    assert_eq!(
        h.client.initialize(ADMIN, TOKEN, TREASURY, 1, DISPUTE_CONTRACT, 0),
        Err(StakingError::AlreadyInitialized)
    );
}

#[test]
fn set_dispute_contract_requires_admin() {
    let mut h = setup(1000);
    assert_eq!(h.client.set_dispute_contract(ATTESTOR, OTHER_CONTRACT), Err(StakingError::NotAdmin));
    assert_eq!(h.client.get_config().unwrap().dispute_contract, DISPUTE_CONTRACT);
}

#[test]
fn stake_rejects_non_positive_and_overflow() {
    let mut h = setup(1000);
    assert_eq!(h.client.stake(ATTESTOR, 0), Err(StakingError::AmountNotPositive));
    assert_eq!(h.client.stake(ATTESTOR, -5), Err(StakingError::AmountNotPositive));
    assert_eq!(h.client.stake(ATTESTOR, i128::MAX), Err(StakingError::StakeOverflow));
    assert_eq!(h.stake_amount(ATTESTOR), 1000);
}

#[test]
fn unstake_errors() {
    let mut h = setup(1000);
    assert_eq!(h.client.request_unstake(9, 10, 0), Err(StakingError::NoStake));
    assert_eq!(h.client.request_unstake(ATTESTOR, 0, 0), Err(StakingError::AmountNotPositive));
    assert_eq!(
        h.client.request_unstake(ATTESTOR, 1001, 0),
        Err(StakingError::InsufficientUnlockedStake)
    );
    assert_eq!(h.client.withdraw_unstaked(ATTESTOR, 0), Err(StakingError::NoPendingUnstake));
    h.request_unstake(ATTESTOR, 400);
    assert_eq!(
        h.client.request_unstake(ATTESTOR, 100, 0),
        Err(StakingError::UnstakeAlreadyPending)
    );
}

#[test]
fn unbonding_period_is_enforced() {
    let mut c = StakingContract::new();
    ok(c.initialize(ADMIN, TOKEN, TREASURY, 1, DISPUTE_CONTRACT, 100));
    ok(c.stake(ATTESTOR, 500));
    ok(c.request_unstake(ATTESTOR, 200, 50));
    let p = c.get_pending_unstake(ATTESTOR).unwrap();
    assert_eq!(p.unlock_timestamp, 150);
    assert_eq!(c.withdraw_unstaked(ATTESTOR, 149), Err(StakingError::UnbondingNotElapsed));
    assert_eq!(c.withdraw_unstaked(ATTESTOR, 150), Ok(200));
    let st = c.get_stake(ATTESTOR).unwrap();
    assert_eq!((st.amount, st.locked), (300, 0));
}

#[test]
fn unlock_timestamp_overflow_is_refused() {
    let mut c = StakingContract::new();
    ok(c.initialize(ADMIN, TOKEN, TREASURY, 1, DISPUTE_CONTRACT, u64::MAX));
    ok(c.stake(ATTESTOR, 500));
    assert_eq!(c.request_unstake(ATTESTOR, 200, 1), Err(StakingError::UnlockOverflow));
}

#[test]
fn slash_partially_locked_stake_clamps_pending() {
    let mut h = setup(1000);
    h.request_unstake(ATTESTOR, 600);
    let outcome = h.slash(DISPUTE_CONTRACT, ATTESTOR, 700, 5);
    assert_eq!(outcome, SlashOutcome::Slashed);
    let st = h.client.get_stake(ATTESTOR).unwrap();
    assert_eq!((st.amount, st.locked), (300, 300));
    assert_eq!(h.client.get_pending_unstake(ATTESTOR).unwrap().amount, 300);
}

#[test]
fn eligibility_errors_and_unknown_attestor() {
    let c = StakingContract::new();
    assert_eq!(c.is_eligible(ATTESTOR), Err(StakingError::NotInitialized));
    let h = setup(1000);
    assert_eq!(h.client.is_eligible(9), Ok(false));
    assert_eq!(StakingError::NotDisputeContract.message(), "caller is not the dispute contract");
}
