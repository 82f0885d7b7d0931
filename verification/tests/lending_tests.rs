use casper_types::U256;
use ectoplasm_lending::aecto_vault::AectoVault;
use ectoplasm_lending::collateral_manager::CollateralManager;
use ectoplasm_lending::errors::LendingError;
use ectoplasm_lending::events::LendingEvent;
use ectoplasm_lending::interest_rate::InterestRateStrategy;
use ectoplasm_lending::lending_pool::LendingPool;
use ectoplasm_lending::liquidation::LiquidationEngine;
use ectoplasm_lending::price_oracle::PriceOracle;

const SCALE: u128 = 1_000_000_000_000_000_000;
const ADMIN: u64 = 1;
const POOL_ADDR: u64 = 2;
const ALICE: u64 = 10;
const BOB: u64 = 11;
const SCSPR: u64 = 100;
const NOW: u64 = 1_000;

fn strategy() -> InterestRateStrategy {
    InterestRateStrategy::init(
        U256::from(SCALE / 50),
        U256::from(SCALE * 4 / 5),
        U256::from(SCALE / 25),
        U256::from(SCALE * 3 / 4),
    )
}

fn setup() -> (LendingPool, AectoVault, CollateralManager, PriceOracle, InterestRateStrategy) {
    let pool = LendingPool::init(ADMIN, POOL_ADDR);
    let vault = AectoVault::init(ADMIN, POOL_ADDR);
    let mut cm = CollateralManager::init(ADMIN);
    let mut oracle = PriceOracle::init(ADMIN);
    // sCSPR at parity, 80% loan-to-value, 85% liquidation threshold, 5% bonus.
    oracle.set_price(ADMIN, SCSPR, U256::from(SCALE), NOW).unwrap();
    cm.add_collateral(
        ADMIN,
        SCSPR,
        U256::from(SCALE * 4 / 5),
        U256::from(SCALE * 17 / 20),
        U256::from(SCALE / 20),
    )
    .unwrap();
    (pool, vault, cm, oracle, strategy())
}

#[test]
fn test_deposit_mints_shares_one_to_one_when_fresh() {
    let (mut pool, mut vault, _cm, _oracle, strat) = setup();
    let shares = pool.deposit(&mut vault, &strat, ALICE, NOW, U256::from(1000u64)).unwrap();
    assert_eq!(shares, U256::from(1000u64));
    assert_eq!(pool.get_total_liquidity(), U256::from(1000u64));
    assert_eq!(vault.total_supply(), U256::from(1000u64));
    assert_eq!(vault.balance_of(ALICE), U256::from(1000u64));
    assert_eq!(vault.get_total_assets(), U256::from(1000u64));
}

#[test]
fn test_withdraw_burns_shares_and_pays_out() {
    let (mut pool, mut vault, _cm, _oracle, strat) = setup();
    pool.deposit(&mut vault, &strat, ALICE, NOW, U256::from(1000u64)).unwrap();
    let shares = pool.withdraw(&mut vault, &strat, ALICE, NOW, U256::from(400u64)).unwrap();
    assert_eq!(shares, U256::from(400u64));
    assert_eq!(pool.get_total_liquidity(), U256::from(600u64));
    assert_eq!(vault.balance_of(ALICE), U256::from(600u64));
    // More than the pool holds is refused.
    assert_eq!(
        pool.withdraw(&mut vault, &strat, ALICE, NOW, U256::from(601u64)),
        Err(LendingError::InsufficientLiquidity)
    );
}

#[test]
fn test_borrow_succeeds_at_health_factor_of_exactly_one() {
    let (mut pool, mut vault, mut cm, oracle, strat) = setup();
    // Equal loan-to-value and threshold make the borrow limit and the
    // health gate coincide at one unit.
    cm.update_collateral(
        ADMIN,
        SCSPR,
        U256::from(SCALE * 17 / 20),
        U256::from(SCALE * 17 / 20),
        U256::from(SCALE / 20),
    )
    .unwrap();
    pool.deposit(&mut vault, &strat, BOB, NOW, U256::from(2000u64)).unwrap();
    cm.deposit_collateral(ALICE, SCSPR, U256::from(1000u64), NOW).unwrap();
    // Weighted collateral value is 850; borrowing exactly 850 leaves the
    // health factor at exactly one unit and must succeed.
    pool.borrow(&cm, &oracle, &strat, ALICE, NOW, U256::from(850u64), SCSPR).unwrap();
    let hf = cm
        .calculate_health_factor(ALICE, U256::from(850u64), &oracle, NOW)
        .unwrap();
    assert_eq!(hf, U256::from(SCALE));
    let pos = pool.get_borrow_position(ALICE).unwrap();
    assert_eq!(pos.principal, U256::from(850u64));
    assert_eq!(pos.interest_accrued, U256::zero());
}

#[test]
fn test_borrow_gate_refuses_below_one_unit() {
    let (mut pool, mut vault, mut cm, oracle, strat) = setup();
    pool.deposit(&mut vault, &strat, BOB, NOW, U256::from(2000u64)).unwrap();
    cm.deposit_collateral(ALICE, SCSPR, U256::from(1000u64), NOW).unwrap();
    // One past the 800 loan-to-value limit is refused.
    assert_eq!(
        pool.borrow(&cm, &oracle, &strat, ALICE, NOW, U256::from(801u64), SCSPR),
        Err(LendingError::ExceedsBorrowLimit)
    );
    // Without any collateral of the asset the borrow is refused earlier.
    assert_eq!(
        pool.borrow(&cm, &oracle, &strat, BOB, NOW, U256::from(1u64), SCSPR),
        Err(LendingError::InsufficientCollateral)
    );
    // Zero amounts and missing liquidity have their own kinds.
    assert_eq!(
        pool.borrow(&cm, &oracle, &strat, ALICE, NOW, U256::zero(), SCSPR),
        Err(LendingError::ZeroAmount)
    );
    assert_eq!(
        pool.borrow(&cm, &oracle, &strat, ALICE, NOW, U256::from(2001u64), SCSPR),
        Err(LendingError::InsufficientLiquidity)
    );
}

#[test]
fn test_withdraw_collateral_gate_reverts_cleanly() {
    let (mut pool, mut vault, mut cm, oracle, strat) = setup();
    pool.deposit(&mut vault, &strat, BOB, NOW, U256::from(2000u64)).unwrap();
    cm.deposit_collateral(ALICE, SCSPR, U256::from(1000u64), NOW).unwrap();
    pool.borrow(&cm, &oracle, &strat, ALICE, NOW, U256::from(800u64), SCSPR).unwrap();
    let debt = U256::from(800u64);
    let balance_before = cm.get_user_collateral(ALICE, SCSPR);
    let events_before = cm.events.len();
    // Withdrawing 100 would leave 900 * 85% = 765 weighted against 800 debt:
    // a health factor below one unit, so the call must fail and change
    // nothing.
    assert_eq!(
        cm.withdraw_collateral(ALICE, SCSPR, U256::from(100u64), debt, &oracle, NOW),
        Err(LendingError::CannotWithdrawCollateral)
    );
    assert_eq!(cm.get_user_collateral(ALICE, SCSPR), balance_before);
    assert_eq!(cm.events.len(), events_before);
    // Withdrawing 50 keeps 950 * 85% = 807.5 >= 800 and succeeds.
    cm.withdraw_collateral(ALICE, SCSPR, U256::from(50u64), debt, &oracle, NOW).unwrap();
    assert_eq!(cm.get_user_collateral(ALICE, SCSPR), U256::from(950u64));
}

#[test]
fn test_repay_caps_at_outstanding_debt_and_zeroes_position() {
    let (mut pool, mut vault, mut cm, oracle, strat) = setup();
    pool.deposit(&mut vault, &strat, BOB, NOW, U256::from(2000u64)).unwrap();
    cm.deposit_collateral(ALICE, SCSPR, U256::from(1000u64), NOW).unwrap();
    pool.borrow(&cm, &oracle, &strat, ALICE, NOW, U256::from(500u64), SCSPR).unwrap();
    // Repay far more than owed: only the 500 outstanding moves.
    pool.repay(&strat, ALICE, NOW, U256::from(9999u64)).unwrap();
    let pos = pool.get_borrow_position(ALICE).unwrap();
    assert_eq!(pos.principal, U256::zero());
    assert_eq!(pos.interest_accrued, U256::zero());
    assert_eq!(pool.get_total_borrows(), U256::zero());
    assert_eq!(pool.get_total_liquidity(), U256::from(2000u64));
    // The recorded repayment is the capped amount.
    let last = pool.events.last().unwrap();
    match last {
        LendingEvent::Repaid(r) => {
            assert_eq!(r.amount, U256::from(500u64));
            assert_eq!(r.interest, U256::zero());
        },
        _ => panic!("expected a repayment event"),
    }
    // Repaying with no position at all is refused.
    assert_eq!(
        pool.repay(&strat, BOB, NOW, U256::from(1u64)),
        Err(LendingError::NoBorrowPosition)
    );
}

#[test]
fn test_liquidation_close_factor() {
    // For a 1000 debt, a 50% close factor and a request of 900, the
    // covered debt must be 500.
    let engine = LiquidationEngine::init(ADMIN);
    let (actual, _seize) = engine
        .calculate_liquidation_amounts(
            U256::from(900u64),
            U256::from(1000u64),
            U256::from(1_000_000u64),
            U256::from(SCALE / 20),
        )
        .unwrap();
    assert_eq!(actual, U256::from(500u64));
}

#[test]
fn test_liquidation_bonus_arithmetic() {
    // Covering 500 with a 5% bonus seizes 525 of collateral value; with
    // only 500 of value on hand the call must fail.
    let engine = LiquidationEngine::init(ADMIN);
    let (actual, seize) = engine
        .calculate_liquidation_amounts(
            U256::from(500u64),
            U256::from(1000u64),
            U256::from(525u64),
            U256::from(SCALE / 20),
        )
        .unwrap();
    assert_eq!(actual, U256::from(500u64));
    assert_eq!(seize, U256::from(525u64));
    assert_eq!(
        engine.calculate_liquidation_amounts(
            U256::from(500u64),
            U256::from(1000u64),
            U256::from(500u64),
            U256::from(SCALE / 20),
        ),
        Err(LendingError::InsufficientCollateralForLiquidation)
    );
}

#[test]
fn test_liquidate_flow() {
    let (mut pool, mut vault, mut cm, mut oracle, strat) = setup();
    let engine = LiquidationEngine::init(ADMIN);
    pool.deposit(&mut vault, &strat, BOB, NOW, U256::from(2000u64)).unwrap();
    cm.deposit_collateral(ALICE, SCSPR, U256::from(1000u64), NOW).unwrap();
    pool.borrow(&cm, &oracle, &strat, ALICE, NOW, U256::from(800u64), SCSPR).unwrap();
    // A healthy position cannot be liquidated.
    assert_eq!(
        pool.liquidate(&cm, &oracle, &engine, &strat, BOB, NOW, ALICE, U256::from(400u64), SCSPR),
        Err(LendingError::PositionHealthy)
    );
    // The collateral price halves; 500 * 85% = 425 weighted against 800.
    oracle.set_price(ADMIN, SCSPR, U256::from(SCALE / 2), NOW).unwrap();
    assert!(cm.can_liquidate(ALICE, U256::from(800u64), &oracle, NOW).unwrap());
    pool.liquidate(&cm, &oracle, &engine, &strat, BOB, NOW, ALICE, U256::from(400u64), SCSPR)
        .unwrap();
    // The 50% close factor also caps the covered amount at 400.
    let pos = pool.get_borrow_position(ALICE).unwrap();
    assert_eq!(pos.principal, U256::from(400u64));
    assert_eq!(pool.get_total_borrows(), U256::from(400u64));
    assert_eq!(pool.get_total_liquidity(), U256::from(1600u64));
    match pool.events.last().unwrap() {
        LendingEvent::Liquidated(l) => {
            assert_eq!(l.debt_covered, U256::from(400u64));
            // 400 covered with a 5% bonus seizes 420 of value, which at a
            // price of 0.5 is 840 collateral tokens.
            assert_eq!(l.liquidation_bonus, U256::from(20u64));
            assert_eq!(l.collateral_seized, U256::from(840u64));
        },
        _ => panic!("expected a liquidation event"),
    }
}

#[test]
fn test_pause_gate_refuses_every_mutating_entry_point() {
    let (mut pool, mut vault, mut cm, oracle, strat) = setup();
    let engine = LiquidationEngine::init(ADMIN);
    pool.deposit(&mut vault, &strat, BOB, NOW, U256::from(2000u64)).unwrap();
    cm.deposit_collateral(ALICE, SCSPR, U256::from(1000u64), NOW).unwrap();
    // Only the admin may pause.
    assert_eq!(pool.pause(ALICE, NOW), Err(LendingError::Unauthorized));
    pool.pause(ADMIN, NOW).unwrap();
    let borrows = pool.get_total_borrows();
    let liquidity = pool.get_total_liquidity();
    let n_events = pool.events.len();
    assert_eq!(
        pool.deposit(&mut vault, &strat, ALICE, NOW, U256::from(1u64)),
        Err(LendingError::ContractPaused)
    );
    assert_eq!(
        pool.withdraw(&mut vault, &strat, BOB, NOW, U256::from(1u64)),
        Err(LendingError::ContractPaused)
    );
    assert_eq!(
        pool.borrow(&cm, &oracle, &strat, ALICE, NOW, U256::from(1u64), SCSPR),
        Err(LendingError::ContractPaused)
    );
    assert_eq!(
        pool.repay(&strat, ALICE, NOW, U256::from(1u64)),
        Err(LendingError::ContractPaused)
    );
    assert_eq!(
        pool.liquidate(&cm, &oracle, &engine, &strat, BOB, NOW, ALICE, U256::from(1u64), SCSPR),
        Err(LendingError::ContractPaused)
    );
    // Nothing moved while paused.
    assert_eq!(pool.get_total_borrows(), borrows);
    assert_eq!(pool.get_total_liquidity(), liquidity);
    assert_eq!(pool.events.len(), n_events);
    // Unpausing restores service.
    pool.unpause(ADMIN, NOW).unwrap();
    pool.deposit(&mut vault, &strat, ALICE, NOW, U256::from(1u64)).unwrap();
}

#[test]
fn test_vault_share_round_trip() {
    let (mut pool, mut vault, _cm, _oracle, strat) = setup();
    // Fresh vault: both conversions are the identity.
    assert_eq!(vault.convert_to_shares(U256::from(123u64)), U256::from(123u64));
    assert_eq!(vault.convert_to_assets(U256::from(123u64)), U256::from(123u64));
    // After deposits and a simulated yield, the round trip never gains.
    pool.deposit(&mut vault, &strat, ALICE, NOW, U256::from(1000u64)).unwrap();
    vault.update_total_assets(POOL_ADDR, U256::from(1300u64)).unwrap();
    for a in [1u64, 7, 99, 1000, 12345] {
        let shares = vault.convert_to_shares(U256::from(a));
        let back = vault.convert_to_assets(shares);
        assert!(back <= U256::from(a));
    }
}

#[test]
fn test_vault_privileged_calls_are_gated() {
    let (_pool, mut vault, _cm, _oracle, _strat) = setup();
    assert_eq!(
        vault.mint(ALICE, ALICE, U256::from(10u64)),
        Err(LendingError::Unauthorized)
    );
    assert_eq!(
        vault.burn(ALICE, ALICE, U256::from(10u64)),
        Err(LendingError::Unauthorized)
    );
    assert_eq!(
        vault.update_total_assets(ALICE, U256::from(10u64)),
        Err(LendingError::Unauthorized)
    );
    vault.mint(POOL_ADDR, ALICE, U256::from(10u64)).unwrap();
    assert_eq!(vault.balance_of(ALICE), U256::from(10u64));
    assert_eq!(
        vault.burn(POOL_ADDR, ALICE, U256::from(11u64)),
        Err(LendingError::InsufficientBalance)
    );
    vault.burn(POOL_ADDR, ALICE, U256::from(10u64)).unwrap();
    assert_eq!(vault.total_supply(), U256::zero());
    assert_eq!(vault.name(), "Aave ECTO");
    assert_eq!(vault.symbol(), "aECTO");
    assert_eq!(vault.decimals(), 18);
}

#[test]
fn test_collateral_configuration_rules() {
    let mut cm = CollateralManager::init(ADMIN);
    // Loan-to-value above the liquidation threshold is invalid.
    assert_eq!(
        cm.add_collateral(
            ADMIN,
            SCSPR,
            U256::from(SCALE * 9 / 10),
            U256::from(SCALE * 8 / 10),
            U256::zero()
        ),
        Err(LendingError::InvalidConfiguration)
    );
    // Ratios above one unit are invalid.
    assert_eq!(
        cm.add_collateral(
            ADMIN,
            SCSPR,
            U256::from(SCALE),
            U256::from(SCALE + 1),
            U256::zero()
        ),
        Err(LendingError::InvalidConfiguration)
    );
    // Non-admins may not configure.
    assert_eq!(
        cm.add_collateral(ALICE, SCSPR, U256::zero(), U256::zero(), U256::zero()),
        Err(LendingError::Unauthorized)
    );
    // Updating an unknown asset is refused.
    assert_eq!(
        cm.update_collateral(ADMIN, SCSPR, U256::zero(), U256::zero(), U256::zero()),
        Err(LendingError::UnsupportedCollateral)
    );
    cm.add_collateral(
        ADMIN,
        SCSPR,
        U256::from(SCALE / 2),
        U256::from(SCALE / 2),
        U256::zero(),
    )
    .unwrap();
    let cfg = cm.get_collateral_config(SCSPR).unwrap();
    assert!(cfg.is_enabled);
    // Disabled assets refuse new deposits.
    cm.set_collateral_enabled(ADMIN, SCSPR, false).unwrap();
    assert_eq!(
        cm.deposit_collateral(ALICE, SCSPR, U256::from(1u64), NOW),
        Err(LendingError::CollateralDisabled)
    );
    // Deposits of unknown assets and of zero are refused.
    assert_eq!(
        cm.deposit_collateral(ALICE, 999, U256::from(1u64), NOW),
        Err(LendingError::UnsupportedCollateral)
    );
    assert_eq!(
        cm.deposit_collateral(ALICE, SCSPR, U256::zero(), NOW),
        Err(LendingError::ZeroAmount)
    );
}

#[test]
fn test_health_factor_is_max_without_debt_and_zero_without_collateral() {
    let (_pool, _vault, cm, oracle, _strat) = setup();
    assert_eq!(
        cm.calculate_health_factor(ALICE, U256::zero(), &oracle, NOW).unwrap(),
        U256::MAX
    );
    assert_eq!(
        cm.calculate_health_factor(ALICE, U256::from(100u64), &oracle, NOW).unwrap(),
        U256::zero()
    );
    assert!(!cm.can_liquidate(ALICE, U256::zero(), &oracle, NOW).unwrap());
}

#[test]
fn test_collateral_withdrawal_without_debt() {
    let (_pool, _vault, mut cm, oracle, _strat) = setup();
    cm.deposit_collateral(ALICE, SCSPR, U256::from(100u64), NOW).unwrap();
    cm.deposit_collateral(ALICE, SCSPR, U256::from(50u64), NOW).unwrap();
    assert_eq!(cm.get_user_collateral(ALICE, SCSPR), U256::from(150u64));
    // Without debt any withdrawal within the balance goes through.
    cm.withdraw_collateral(ALICE, SCSPR, U256::from(150u64), U256::zero(), &oracle, NOW)
        .unwrap();
    assert_eq!(cm.get_user_collateral(ALICE, SCSPR), U256::zero());
    // Beyond the balance it is refused.
    assert_eq!(
        cm.withdraw_collateral(ALICE, SCSPR, U256::from(1u64), U256::zero(), &oracle, NOW),
        Err(LendingError::InsufficientCollateralDeposit)
    );
}

#[test]
fn test_stale_price_blocks_borrowing() {
    let (mut pool, mut vault, mut cm, oracle, strat) = setup();
    pool.deposit(&mut vault, &strat, BOB, NOW, U256::from(2000u64)).unwrap();
    cm.deposit_collateral(ALICE, SCSPR, U256::from(1000u64), NOW).unwrap();
    // Two hours later the feed set at NOW is stale.
    let later = NOW + 7200;
    assert_eq!(
        pool.borrow(&cm, &oracle, &strat, ALICE, later, U256::from(100u64), SCSPR),
        Err(LendingError::InvalidPrice)
    );
}

#[test]
fn test_set_reserve_factor_rules() {
    let (mut pool, _vault, _cm, _oracle, _strat) = setup();
    assert_eq!(
        pool.set_reserve_factor(ALICE, U256::from(SCALE / 5)),
        Err(LendingError::Unauthorized)
    );
    assert_eq!(
        pool.set_reserve_factor(ADMIN, U256::from(SCALE + 1)),
        Err(LendingError::InvalidConfiguration)
    );
    pool.set_reserve_factor(ADMIN, U256::from(SCALE / 5)).unwrap();
}

#[test]
fn test_repay_interest_before_principal_feeds_reserves() {
    let (mut pool, mut vault, mut cm, oracle, strat) = setup();
    pool.deposit(&mut vault, &strat, BOB, NOW, U256::from(2000u64)).unwrap();
    cm.deposit_collateral(ALICE, SCSPR, U256::from(1000u64), NOW).unwrap();
    pool.borrow(&cm, &oracle, &strat, ALICE, NOW, U256::from(800u64), SCSPR).unwrap();
    // A partial repayment against a pure-principal position.
    pool.repay(&strat, ALICE, NOW, U256::from(300u64)).unwrap();
    let pos = pool.get_borrow_position(ALICE).unwrap();
    assert_eq!(pos.principal, U256::from(500u64));
    assert_eq!(pool.get_total_borrows(), U256::from(500u64));
    assert_eq!(pool.get_total_liquidity(), U256::from(1500u64));
}

#[test]
fn test_vault_share_transfers_and_allowances() {
    let (_pool, mut vault, _cm, _oracle, _strat) = setup();
    vault.mint(POOL_ADDR, ALICE, U256::from(100u64)).unwrap();
    // Direct transfer.
    vault.transfer(ALICE, BOB, U256::from(40u64)).unwrap();
    assert_eq!(vault.balance_of(ALICE), U256::from(60u64));
    assert_eq!(vault.balance_of(BOB), U256::from(40u64));
    assert_eq!(
        vault.transfer(ALICE, BOB, U256::from(61u64)),
        Err(LendingError::InsufficientBalance)
    );
    // Delegated transfer within the allowance.
    vault.approve(ALICE, BOB, U256::from(25u64));
    assert_eq!(vault.allowance(ALICE, BOB), U256::from(25u64));
    vault.transfer_from(BOB, ALICE, BOB, U256::from(20u64)).unwrap();
    assert_eq!(vault.allowance(ALICE, BOB), U256::from(5u64));
    assert_eq!(vault.balance_of(ALICE), U256::from(40u64));
    assert_eq!(vault.balance_of(BOB), U256::from(60u64));
    assert_eq!(
        vault.transfer_from(BOB, ALICE, BOB, U256::from(6u64)),
        Err(LendingError::InsufficientBalance)
    );
}

#[test]
fn test_health_factor_sums_over_several_assets() {
    let (_pool, _vault, mut cm, mut oracle, _strat) = setup();
    const WETH: u64 = 101;
    // A second collateral at twice the price with a 50% threshold.
    oracle.set_price(ADMIN, WETH, U256::from(SCALE * 2), NOW).unwrap();
    cm.add_collateral(
        ADMIN,
        WETH,
        U256::from(SCALE / 2),
        U256::from(SCALE / 2),
        U256::from(SCALE / 10),
    )
    .unwrap();
    cm.deposit_collateral(ALICE, SCSPR, U256::from(1000u64), NOW).unwrap();
    cm.deposit_collateral(ALICE, WETH, U256::from(100u64), NOW).unwrap();
    // Weighted value: 1000 * 85% + 200 * 50% = 850 + 100 = 950.
    // Against a debt of 475 the health factor is exactly 2.
    let hf = cm
        .calculate_health_factor(ALICE, U256::from(475u64), &oracle, NOW)
        .unwrap();
    assert_eq!(hf, U256::from(SCALE * 2));
    // The plain and loan-to-value sums see both assets too.
    assert_eq!(
        cm.get_user_collateral_value(ALICE, &oracle, NOW).unwrap(),
        U256::from(1200u64)
    );
    assert_eq!(
        cm.get_max_borrow_amount(ALICE, &oracle, NOW).unwrap(),
        U256::from(900u64)
    );
}

#[test]
fn test_redeposit_after_full_withdrawal_counts_once() {
    let (_pool, _vault, mut cm, oracle, _strat) = setup();
    cm.deposit_collateral(ALICE, SCSPR, U256::from(100u64), NOW).unwrap();
    cm.withdraw_collateral(ALICE, SCSPR, U256::from(100u64), U256::zero(), &oracle, NOW)
        .unwrap();
    cm.deposit_collateral(ALICE, SCSPR, U256::from(60u64), NOW).unwrap();
    assert_eq!(cm.get_user_collateral(ALICE, SCSPR), U256::from(60u64));
    // The asset is valued once, not once per deposit.
    assert_eq!(
        cm.get_user_collateral_value(ALICE, &oracle, NOW).unwrap(),
        U256::from(60u64)
    );
}

#[test]
fn test_event_log_order_per_operation() {
    let (mut pool, mut vault, _cm, _oracle, strat) = setup();
    pool.deposit(&mut vault, &strat, ALICE, NOW, U256::from(1000u64)).unwrap();
    // Every successful pool operation logs the accrual preamble, the rate
    // snapshot, and its own event, in that order.
    assert_eq!(pool.events.len(), 3);
    assert!(matches!(pool.events[0], LendingEvent::InterestAccrued(_)));
    assert!(matches!(pool.events[1], LendingEvent::InterestRatesUpdated(_)));
    match &pool.events[2] {
        LendingEvent::Deposited(d) => {
            assert_eq!(d.user, ALICE);
            assert_eq!(d.amount, U256::from(1000u64));
            assert_eq!(d.shares, U256::from(1000u64));
            assert_eq!(d.timestamp, NOW);
        },
        _ => panic!("expected a deposit event"),
    }
}
