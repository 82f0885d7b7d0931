use casper_types::U256;
use ectoplasm_lending::errors::DexError;
use ectoplasm_lending::math::{AmmMath, SafeMath};

#[test]
fn test_sqrt() {
    assert_eq!(SafeMath::sqrt(U256::from(0)), U256::from(0));
    assert_eq!(SafeMath::sqrt(U256::from(1)), U256::from(1));
    assert_eq!(SafeMath::sqrt(U256::from(4)), U256::from(2));
    assert_eq!(SafeMath::sqrt(U256::from(9)), U256::from(3));
    assert_eq!(SafeMath::sqrt(U256::from(16)), U256::from(4));
    assert_eq!(SafeMath::sqrt(U256::from(100)), U256::from(10));
}

#[test]
fn test_get_amount_out() {
    let amount_in = U256::from(1000);
    let reserve_in = U256::from(10000);
    let reserve_out = U256::from(10000);

    let amount_out = AmmMath::get_amount_out(amount_in, reserve_in, reserve_out).unwrap();
    // With 0.3% fee, output should be slightly less than 1000
    assert!(amount_out < U256::from(1000));
    assert!(amount_out > U256::from(900));
}

#[test]
fn test_get_amount_in() {
    let amount_out = U256::from(900);
    let reserve_in = U256::from(10000);
    let reserve_out = U256::from(10000);

    let amount_in = AmmMath::get_amount_in(amount_out, reserve_in, reserve_out).unwrap();
    // Input should be more than output due to fees
    assert!(amount_in > amount_out);
}

#[test]
fn test_quote() {
    let amount_a = U256::from(1000);
    let reserve_a = U256::from(10000);
    let reserve_b = U256::from(20000);

    let amount_b = AmmMath::quote(amount_a, reserve_a, reserve_b).unwrap();
    assert_eq!(amount_b, U256::from(2000));
}

#[test]
fn test_calculate_liquidity_first_deposit() {
    let amount0 = U256::from(10000);
    let amount1 = U256::from(10000);
    let reserve0 = U256::zero();
    let reserve1 = U256::zero();
    let total_supply = U256::zero();

    let liquidity =
        AmmMath::calculate_liquidity(amount0, amount1, reserve0, reserve1, total_supply).unwrap();

    // sqrt(10000 * 10000) - 1000 = 10000 - 1000 = 9000
    assert_eq!(liquidity, U256::from(9000));
}

#[test]
fn test_safe_math_add_exact_and_overflow() {
    assert_eq!(SafeMath::add(U256::from(2), U256::from(3)).unwrap(), U256::from(5));
    assert_eq!(SafeMath::add(U256::MAX, U256::from(1)), Err(DexError::Overflow));
}

#[test]
fn test_safe_math_sub_exact_and_underflow() {
    assert_eq!(SafeMath::sub(U256::from(7), U256::from(3)).unwrap(), U256::from(4));
    assert_eq!(SafeMath::sub(U256::from(3), U256::from(7)), Err(DexError::Underflow));
}

#[test]
fn test_safe_math_mul_exact_and_overflow() {
    assert_eq!(SafeMath::mul(U256::from(6), U256::from(7)).unwrap(), U256::from(42));
    assert_eq!(SafeMath::mul(U256::MAX, U256::from(2)), Err(DexError::Overflow));
}

#[test]
fn test_safe_math_div_exact_and_zero() {
    assert_eq!(SafeMath::div(U256::from(17), U256::from(5)).unwrap(), U256::from(3));
    assert_eq!(SafeMath::div(U256::from(17), U256::zero()), Err(DexError::DivisionByZero));
}

#[test]
fn test_min_max() {
    assert_eq!(SafeMath::min(U256::from(3), U256::from(9)), U256::from(3));
    assert_eq!(SafeMath::max(U256::from(3), U256::from(9)), U256::from(9));
}

#[test]
fn test_sqrt_large_value() {
    // A value whose root does not divide it evenly.
    let y = U256::from(1_000_000_000_000_000_000u128);
    let r = SafeMath::sqrt(y);
    assert!(r * r <= y);
    assert!((r + U256::from(1)) * (r + U256::from(1)) > y);
}

#[test]
fn test_get_amount_out_exact_value() {
    // (1000 * 997 * 10000) / (10000 * 1000 + 1000 * 997) = 906.xx, truncated.
    let out = AmmMath::get_amount_out(U256::from(1000), U256::from(10000), U256::from(10000))
        .unwrap();
    assert_eq!(out, U256::from(906));
}

#[test]
fn test_get_amount_out_errors() {
    assert_eq!(
        AmmMath::get_amount_out(U256::zero(), U256::from(10), U256::from(10)),
        Err(DexError::InsufficientInputAmount)
    );
    assert_eq!(
        AmmMath::get_amount_out(U256::from(5), U256::zero(), U256::from(10)),
        Err(DexError::InsufficientLiquidity)
    );
}

#[test]
fn test_get_amount_in_errors() {
    assert_eq!(
        AmmMath::get_amount_in(U256::zero(), U256::from(10), U256::from(10)),
        Err(DexError::InsufficientOutputAmount)
    );
    assert_eq!(
        AmmMath::get_amount_in(U256::from(11), U256::from(10), U256::from(10)),
        Err(DexError::InsufficientLiquidity)
    );
}

#[test]
fn test_quote_errors() {
    assert_eq!(
        AmmMath::quote(U256::zero(), U256::from(10), U256::from(10)),
        Err(DexError::InsufficientAmount)
    );
    assert_eq!(
        AmmMath::quote(U256::from(5), U256::zero(), U256::from(10)),
        Err(DexError::InsufficientLiquidity)
    );
}

#[test]
fn test_calculate_liquidity_minimum_not_met() {
    // sqrt(100) = 10 <= 1000 locked minimum.
    assert_eq!(
        AmmMath::calculate_liquidity(
            U256::from(10),
            U256::from(10),
            U256::zero(),
            U256::zero(),
            U256::zero()
        ),
        Err(DexError::InsufficientLiquidityMinted)
    );
}

#[test]
fn test_calculate_liquidity_subsequent_deposit() {
    // min(50 * 1000 / 500, 80 * 1000 / 800) = min(100, 100) = 100
    let liquidity = AmmMath::calculate_liquidity(
        U256::from(50),
        U256::from(80),
        U256::from(500),
        U256::from(800),
        U256::from(1000),
    )
    .unwrap();
    assert_eq!(liquidity, U256::from(100));
}

#[test]
fn test_calculate_burn_amounts() {
    let (a0, a1) = AmmMath::calculate_burn_amounts(
        U256::from(100),
        U256::from(500),
        U256::from(800),
        U256::from(1000),
    )
    .unwrap();
    assert_eq!(a0, U256::from(50));
    assert_eq!(a1, U256::from(80));
    assert_eq!(
        AmmMath::calculate_burn_amounts(
            U256::from(100),
            U256::from(500),
            U256::from(800),
            U256::zero()
        ),
        Err(DexError::InsufficientLiquidity)
    );
}

#[test]
fn test_verify_k_invariant() {
    assert!(AmmMath::verify_k_invariant(
        U256::from(10),
        U256::from(10),
        U256::from(11),
        U256::from(10)
    )
    .unwrap());
    assert!(!AmmMath::verify_k_invariant(
        U256::from(10),
        U256::from(10),
        U256::from(9),
        U256::from(10)
    )
    .unwrap());
}
