use staking::{
    Error, StakingContract, BPS_DENOM, COOLDOWN_LEDGERS, LEDGERS_PER_YEAR, MAX_BOOST, MIN_STAKE,
    SLASH_RATE_BPS,
};

const ADMIN: u64 = 100;
const TOKEN: u64 = 200;
const ARTIST1: u64 = 1;
const ARTIST2: u64 = 2;

/// An initialised engine and the tick it starts at.
struct TestSetup {
    c: StakingContract,
    now: u32,
}

fn setup() -> TestSetup {
    let mut c = StakingContract::new();
    c.initialize(ADMIN, TOKEN).unwrap();
    TestSetup { c, now: 0 }
}

fn advance_ledgers(t: &mut TestSetup, by: u32) {
    t.now += by;
}

#[test]
fn test_initialize_success() {
    let t = setup();
    assert_eq!(t.c.total_staked(), 0);
    assert_eq!(t.c.get_token(), Some(TOKEN));
}

#[test]
fn test_initialize_twice_fails() {
    let mut t = setup();
    let result = t.c.initialize(ADMIN, TOKEN);
    assert_eq!(result, Err(Error::AlreadyInitialised));
}

#[test]
fn test_stake_success() {
    let mut t = setup();
    let stake_amount = 100_0000000_i128;

    t.c.stake(ARTIST1, stake_amount, t.now).unwrap();

    let info = t.c.get_stake(ARTIST1).unwrap();
    assert_eq!(info.amount, stake_amount);
    assert_eq!(t.c.total_staked(), stake_amount);
}

#[test]
fn test_stake_below_minimum_fails() {
    let mut t = setup();
    let too_small = MIN_STAKE - 1;

    let result = t.c.stake(ARTIST1, too_small, t.now);
    assert_eq!(result, Err(Error::BelowMinimum));
}

#[test]
fn test_stake_accumulates() {
    let mut t = setup();

    t.c.stake(ARTIST1, 100_0000000_i128, t.now).unwrap();
    advance_ledgers(&mut t, 1000);
    t.c.stake(ARTIST1, 50_0000000_i128, t.now).unwrap();

    let info = t.c.get_stake(ARTIST1).unwrap();
    assert_eq!(info.amount, 150_0000000_i128);
    assert!(info.pending_rewards > 0);
}

#[test]
fn test_stake_multiple_artists() {
    let mut t = setup();

    t.c.stake(ARTIST1, 100_0000000_i128, t.now).unwrap();
    t.c.stake(ARTIST2, 200_0000000_i128, t.now).unwrap();

    assert_eq!(t.c.total_staked(), 300_0000000_i128);
}

#[test]
fn test_unstake_creates_request() {
    let mut t = setup();

    t.c.stake(ARTIST1, 100_0000000_i128, t.now).unwrap();
    t.c.unstake(ARTIST1, 50_0000000_i128, t.now).unwrap();

    let request = t.c.get_unstake_request(ARTIST1).unwrap();
    assert_eq!(request.amount, 50_0000000_i128);

    let info = t.c.get_stake(ARTIST1).unwrap();
    assert_eq!(info.amount, 50_0000000_i128);
}

#[test]
fn test_unstake_more_than_staked_fails() {
    let mut t = setup();

    t.c.stake(ARTIST1, 100_0000000_i128, t.now).unwrap();
    let result = t.c.unstake(ARTIST1, 200_0000000_i128, t.now);
    assert_eq!(result, Err(Error::InsufficientStake));
}

#[test]
fn test_unstake_no_stake_fails() {
    let mut t = setup();

    let result = t.c.unstake(ARTIST1, 100_0000000_i128, t.now);
    assert_eq!(result, Err(Error::NoStake));
}

#[test]
fn test_withdraw_before_cooldown_fails() {
    let mut t = setup();

    t.c.stake(ARTIST1, 100_0000000_i128, t.now).unwrap();
    t.c.unstake(ARTIST1, 100_0000000_i128, t.now).unwrap();

    let result = t.c.withdraw(ARTIST1, t.now);
    assert_eq!(result, Err(Error::CooldownNotMet));
}

#[test]
fn test_withdraw_after_cooldown_succeeds() {
    let mut t = setup();

    t.c.stake(ARTIST1, 100_0000000_i128, t.now).unwrap();
    t.c.unstake(ARTIST1, 100_0000000_i128, t.now).unwrap();

    advance_ledgers(&mut t, COOLDOWN_LEDGERS + 1);

    let withdrawn = t.c.withdraw(ARTIST1, t.now).unwrap();
    assert_eq!(withdrawn, 100_0000000_i128);

    assert!(t.c.get_unstake_request(ARTIST1).is_none());
}

#[test]
fn test_withdraw_no_request_fails() {
    let mut t = setup();

    let result = t.c.withdraw(ARTIST1, t.now);
    assert_eq!(result, Err(Error::NoUnstakeRequest));
}

#[test]
fn test_rewards_accrue_over_time() {
    let mut t = setup();

    t.c.stake(ARTIST1, 1_000_0000000_i128, t.now).unwrap();

    advance_ledgers(&mut t, LEDGERS_PER_YEAR as u32);

    let rewards = t.c.pending_rewards(ARTIST1, t.now).unwrap();
    assert!(rewards > 49_0000000_i128, "rewards too low: {}", rewards);
    assert!(rewards < 51_0000000_i128, "rewards too high: {}", rewards);
}

#[test]
fn test_claim_rewards_transfers_tokens() {
    let mut t = setup();
    let mut balance: i128 = 1_000_000_0000;

    t.c.stake(ARTIST1, 1_000_0000000_i128, t.now).unwrap();
    balance -= 1_000_0000000_i128;
    advance_ledgers(&mut t, LEDGERS_PER_YEAR as u32);

    let before = balance;
    let claimed = t.c.claim_rewards(ARTIST1, t.now).unwrap();
    balance += claimed;
    let after = balance;

    assert!(claimed > 0);
    assert_eq!(after - before, claimed);
}

#[test]
fn test_claim_rewards_resets_pending() {
    let mut t = setup();

    t.c.stake(ARTIST1, 1_000_0000000_i128, t.now).unwrap();
    advance_ledgers(&mut t, LEDGERS_PER_YEAR as u32);

    t.c.claim_rewards(ARTIST1, t.now).unwrap();

    let pending = t.c.pending_rewards(ARTIST1, t.now).unwrap();
    assert!(pending < 1_000_000, "Pending should be near zero after claim, got {}", pending);
}

#[test]
fn test_no_stake_no_rewards() {
    let mut t = setup();

    advance_ledgers(&mut t, LEDGERS_PER_YEAR as u32);
    assert_eq!(t.c.pending_rewards(ARTIST1, t.now), Ok(0));
}

#[test]
fn test_claim_rewards_no_stake_fails() {
    let mut t = setup();

    let result = t.c.claim_rewards(ARTIST1, t.now);
    assert_eq!(result, Err(Error::NoStake));
}

#[test]
fn test_boost_zero_for_no_stake() {
    let t = setup();
    assert_eq!(t.c.calculate_boost(ARTIST1), 0);
}

#[test]
fn test_boost_minimum_stake() {
    let mut t = setup();

    t.c.stake(ARTIST1, MIN_STAKE, t.now).unwrap();
    assert_eq!(t.c.calculate_boost(ARTIST1), 10);
}

#[test]
fn test_boost_scales_with_stake() {
    let mut t = setup();

    t.c.stake(ARTIST1, MIN_STAKE * 4, t.now).unwrap();
    assert_eq!(t.c.calculate_boost(ARTIST1), 20);

    t.c.stake(ARTIST2, MIN_STAKE * 9, t.now).unwrap();
    assert_eq!(t.c.calculate_boost(ARTIST2), 30);
}

#[test]
fn test_boost_capped_at_max() {
    let mut t = setup();

    t.c.stake(ARTIST1, MIN_STAKE * 10_000, t.now).unwrap();
    assert_eq!(t.c.calculate_boost(ARTIST1), MAX_BOOST);
}

#[test]
fn test_boost_zero_after_slash() {
    let mut t = setup();

    t.c.stake(ARTIST1, MIN_STAKE * 100, t.now).unwrap();
    assert!(t.c.calculate_boost(ARTIST1) > 0);

    t.c.slash(ADMIN, ARTIST1, t.now).unwrap();
    assert_eq!(t.c.calculate_boost(ARTIST1), 0);
}

#[test]
fn test_slash_reduces_stake() {
    let mut t = setup();

    let stake_amount = 1_000_0000000_i128;
    t.c.stake(ARTIST1, stake_amount, t.now).unwrap();
    t.c.slash(ADMIN, ARTIST1, t.now).unwrap();

    let info = t.c.get_stake(ARTIST1).unwrap();
    let expected = stake_amount - (stake_amount * SLASH_RATE_BPS / BPS_DENOM);
    assert_eq!(info.amount, expected);
}

#[test]
fn test_slash_marks_account() {
    let mut t = setup();

    t.c.stake(ARTIST1, 100_0000000_i128, t.now).unwrap();
    assert!(!t.c.is_slashed(ARTIST1));

    t.c.slash(ADMIN, ARTIST1, t.now).unwrap();
    assert!(t.c.is_slashed(ARTIST1));
}

#[test]
fn test_slash_blocks_staking() {
    let mut t = setup();

    t.c.stake(ARTIST1, 100_0000000_i128, t.now).unwrap();
    t.c.slash(ADMIN, ARTIST1, t.now).unwrap();

    let result = t.c.stake(ARTIST1, 100_0000000_i128, t.now);
    assert_eq!(result, Err(Error::AccountSlashed));
}

#[test]
fn test_slash_blocks_rewards() {
    let mut t = setup();

    t.c.stake(ARTIST1, 100_0000000_i128, t.now).unwrap();
    advance_ledgers(&mut t, 100_000);
    t.c.slash(ADMIN, ARTIST1, t.now).unwrap();

    let result = t.c.claim_rewards(ARTIST1, t.now);
    assert_eq!(result, Err(Error::AccountSlashed));
}

#[test]
fn test_slash_no_stake_fails() {
    let mut t = setup();

    let result = t.c.slash(ADMIN, ARTIST1, t.now);
    assert_eq!(result, Err(Error::NoStake));
}

#[test]
fn test_restore_after_slash() {
    let mut t = setup();

    t.c.stake(ARTIST1, 100_0000000_i128, t.now).unwrap();
    t.c.slash(ADMIN, ARTIST1, t.now).unwrap();
    assert!(t.c.is_slashed(ARTIST1));

    t.c.restore(ADMIN, ARTIST1).unwrap();
    assert!(!t.c.is_slashed(ARTIST1));

    t.c.stake(ARTIST1, MIN_STAKE, t.now).unwrap();
}

#[test]
fn test_only_admin_can_slash() {
    let mut t = setup();

    t.c.stake(ARTIST1, 100_0000000_i128, t.now).unwrap();
    assert_eq!(t.c.slash(ARTIST2, ARTIST1, t.now), Err(Error::Unauthorized));
    assert!(!t.c.is_slashed(ARTIST1));
}

#[test]
fn test_transfer_admin() {
    let mut t = setup();
    let new_admin = 300_u64;

    t.c.transfer_admin(ADMIN, new_admin).unwrap();

    t.c.stake(ARTIST1, 100_0000000_i128, t.now).unwrap();
    assert_eq!(t.c.slash(ADMIN, ARTIST1, t.now), Err(Error::Unauthorized));
    t.c.slash(new_admin, ARTIST1, t.now).unwrap();
}

#[test]
fn test_full_lifecycle() {
    let mut t = setup();
    let mut balance: i128 = 1_000_000_0000;
    let initial_balance = balance;

    t.c.stake(ARTIST1, 1_000_0000000_i128, t.now).unwrap();
    balance -= 1_000_0000000_i128;
    assert_eq!(t.c.total_staked(), 1_000_0000000_i128);

    advance_ledgers(&mut t, LEDGERS_PER_YEAR as u32 / 2);

    let rewards = t.c.claim_rewards(ARTIST1, t.now).unwrap();
    balance += rewards;
    assert!(rewards > 0);

    let boost = t.c.calculate_boost(ARTIST1);
    assert!(boost > 0 && boost <= MAX_BOOST);

    t.c.unstake(ARTIST1, 500_0000000_i128, t.now).unwrap();

    advance_ledgers(&mut t, COOLDOWN_LEDGERS + 1);

    let withdrawn = t.c.withdraw(ARTIST1, t.now).unwrap();
    balance += withdrawn;
    assert_eq!(withdrawn, 500_0000000_i128);

    let final_balance = balance;
    assert!(final_balance > initial_balance - 500_0000000_i128);
}

#[test]
fn test_rewards_preserved_across_stake_additions() {
    let mut t = setup();

    t.c.stake(ARTIST1, 1_000_0000000_i128, t.now).unwrap();
    advance_ledgers(&mut t, LEDGERS_PER_YEAR as u32 / 2);

    let pending_before = t.c.pending_rewards(ARTIST1, t.now).unwrap();
    assert!(pending_before > 0);

    t.c.stake(ARTIST1, 500_0000000_i128, t.now).unwrap();

    let info = t.c.get_stake(ARTIST1).unwrap();
    assert!(info.pending_rewards > 0, "Pending rewards lost on re-stake");
    assert_eq!(info.pending_rewards, pending_before);
}
