//! The closed failure taxonomies of the protocol: one for the lending core,
//! one for the safe-math and pool-share formulas.

use vstd::prelude::*;

verus! {

/// Failure kinds of the lending protocol, grouped by phase.
#[derive(Clone, Copy, Debug, PartialEq, Eq, Structural)]
pub enum LendingError {
    /// Insufficient balance for the operation.
    InsufficientBalance,
    /// Amount below the minimum deposit.
    BelowMinimumDeposit,
    /// Amount above the maximum deposit.
    ExceedsMaximumDeposit,
    /// Insufficient liquidity for a withdrawal or borrow.
    InsufficientLiquidity,
    /// Insufficient collateral to borrow.
    InsufficientCollateral,
    /// Amount below the minimum borrow.
    BelowMinimumBorrow,
    /// Amount above the maximum borrow.
    ExceedsMaximumBorrow,
    /// Borrow would exceed the collateral-derived limit.
    ExceedsBorrowLimit,
    /// The user has no active borrow position.
    NoBorrowPosition,
    /// The collateral asset is not supported.
    UnsupportedCollateral,
    /// Insufficient collateral deposited.
    InsufficientCollateralDeposit,
    /// Withdrawing would leave the position undercollateralized.
    CannotWithdrawCollateral,
    /// The collateral asset is disabled.
    CollateralDisabled,
    /// The health factor fell below the liquidation threshold.
    HealthFactorBelowThreshold,
    /// The position is healthy and cannot be liquidated.
    PositionHealthy,
    /// The health factor is too low to borrow more.
    HealthFactorTooLow,
    /// The liquidation would cover more than the outstanding debt.
    ExceedsDebtAmount,
    /// The liquidation bonus could not be computed.
    LiquidationBonusFailed,
    /// There is not enough collateral to cover a liquidation with its bonus.
    InsufficientCollateralForLiquidation,
    /// The interest-rate parameters are invalid.
    InvalidInterestRateParams,
    /// The utilization rate could not be computed.
    UtilizationCalculationFailed,
    /// The price feed is missing or disabled.
    PriceFeedNotAvailable,
    /// The price is stale or otherwise invalid.
    InvalidPrice,
    /// The price oracle is not initialized.
    OracleNotInitialized,
    /// The caller is not authorized.
    Unauthorized,
    /// The contract is paused.
    ContractPaused,
    /// The operation is not allowed.
    OperationNotAllowed,
    /// A configuration parameter is invalid.
    InvalidConfiguration,
    /// The reserve is not initialized.
    ReserveNotInitialized,
    /// The reserve is already initialized.
    ReserveAlreadyInitialized,
    /// A zero amount is not allowed.
    ZeroAmount,
    /// An invalid address was provided.
    InvalidAddress,
    /// An intermediate value exceeded 256 bits.
    MathOverflow,
    /// A subtraction would fall below zero.
    MathUnderflow,
    /// Division by zero.
    DivisionByZero,
}

/// Failure kinds of the safe-math and market-making formulas.
#[derive(Clone, Copy, Debug, PartialEq, Eq, Structural)]
pub enum DexError {
    /// Insufficient liquidity in the pool.
    InsufficientLiquidity,
    /// Insufficient input amount for a swap.
    InsufficientInputAmount,
    /// Insufficient output amount for a swap.
    InsufficientOutputAmount,
    /// Insufficient amount.
    InsufficientAmount,
    /// An addition or multiplication exceeded 256 bits.
    Overflow,
    /// A subtraction would fall below zero.
    Underflow,
    /// Division by zero.
    DivisionByZero,
    /// Too little liquidity would be minted.
    InsufficientLiquidityMinted,
    /// Too little liquidity would be burned.
    InsufficientLiquidityBurned,
}

} // verus!
