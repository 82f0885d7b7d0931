use casper_types::U256;
use ectoplasm_lending::interest_rate::InterestRateStrategy;

const SCALE: u128 = 1_000_000_000_000_000_000;

fn strategy() -> InterestRateStrategy {
    // 2% base, 80% optimal, 4% slope1, 75% slope2.
    InterestRateStrategy::init(
        U256::from(SCALE / 50),
        U256::from(SCALE * 4 / 5),
        U256::from(SCALE / 25),
        U256::from(SCALE * 3 / 4),
    )
}

#[test]
fn test_utilization_calculation() {
    // borrows = 500, liquidity = 500, total = 1000
    // utilization = 500 / 1000 = 0.5 = 50%
    let s = strategy();
    let u = s.calculate_utilization_rate(U256::from(500), U256::from(500));
    assert_eq!(u, U256::from(SCALE / 2));
    assert_eq!(
        s.calculate_utilization_rate(U256::zero(), U256::from(500)),
        U256::zero()
    );
}

#[test]
fn test_borrow_rate_before_optimal() {
    // utilization 40% is half the 80% optimum:
    // rate = 2% + (40%/80%) * 4% = 4%
    let s = strategy();
    let rate = s.calculate_borrow_rate(U256::from(400), U256::from(600));
    assert_eq!(rate, U256::from(SCALE / 25));
}

#[test]
fn test_borrow_rate_after_optimal() {
    // utilization 90%: rate = 2% + 4% + ((90%-80%)/(100%-80%)) * 75% = 43.5%
    let s = strategy();
    let rate = s.calculate_borrow_rate(U256::from(900), U256::from(100));
    assert_eq!(rate, U256::from(SCALE * 435 / 1000));
}

#[test]
fn test_supply_rate() {
    // utilization 50%, borrow rate 4%, reserve factor 10%:
    // supply = 4% * 90% * 50% = 1.8%
    let s = strategy();
    let supply = s.calculate_supply_rate(
        U256::from(SCALE / 25),
        U256::from(500),
        U256::from(500),
        U256::from(SCALE / 10),
    );
    assert_eq!(supply, U256::from(SCALE * 18 / 1000));
}

#[test]
fn test_utilization_boundary_uses_gentle_branch() {
    // At borrows = 800, liquidity = 200 the utilization is exactly the 80%
    // optimum, and the rate comes from the branch below the optimum:
    // base + slope1, not the steep branch.
    let s = strategy();
    let rate = s.calculate_borrow_rate(U256::from(800), U256::from(200));
    assert_eq!(rate, U256::from(SCALE / 50 + SCALE / 25));
}

#[test]
fn test_borrow_rate_zero_utilization_is_base() {
    let s = strategy();
    let rate = s.calculate_borrow_rate(U256::zero(), U256::from(1000));
    assert_eq!(rate, U256::from(SCALE / 50));
}

#[test]
fn test_update_params() {
    let mut s = strategy();
    s.update_params(
        U256::from(SCALE / 100),
        U256::from(SCALE / 2),
        U256::from(SCALE / 20),
        U256::from(SCALE),
    );
    assert_eq!(s.get_params().base_rate, U256::from(SCALE / 100));
    assert_eq!(s.get_params().optimal_utilization, U256::from(SCALE / 2));
}
