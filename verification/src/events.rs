//! Domain events: the durable audit log of the protocol. Every successful
//! state transition records exactly one operation event, and none is
//! recorded for a failed, fully rolled back call.

use vstd::prelude::*;
use casper_types::U256;
use crate::Address;

verus! {

/// Base asset deposited into the lending pool.
#[derive(Clone, Copy, Debug, PartialEq)]
pub struct Deposited {
    pub user: Address,
    pub amount: U256,
    pub shares: U256,
    pub timestamp: u64,
}

/// Base asset withdrawn from the lending pool.
#[derive(Clone, Copy, Debug, PartialEq)]
pub struct Withdrawn {
    pub user: Address,
    pub amount: U256,
    pub shares: U256,
    pub timestamp: u64,
}

/// Base asset borrowed against collateral.
#[derive(Clone, Copy, Debug, PartialEq)]
pub struct Borrowed {
    pub borrower: Address,
    pub amount: U256,
    pub collateral_asset: Address,
    pub borrow_rate: U256,
    pub timestamp: u64,
}

/// Borrowed base asset repaid.
#[derive(Clone, Copy, Debug, PartialEq)]
pub struct Repaid {
    pub borrower: Address,
    pub amount: U256,
    pub interest: U256,
    pub timestamp: u64,
}

/// Collateral deposited with the collateral manager.
#[derive(Clone, Copy, Debug, PartialEq)]
pub struct CollateralDeposited {
    pub user: Address,
    pub asset: Address,
    pub amount: U256,
    pub timestamp: u64,
}

/// Collateral withdrawn from the collateral manager.
#[derive(Clone, Copy, Debug, PartialEq)]
pub struct CollateralWithdrawn {
    pub user: Address,
    pub asset: Address,
    pub amount: U256,
    pub timestamp: u64,
}

/// An undercollateralized position partially or fully liquidated.
#[derive(Clone, Copy, Debug, PartialEq)]
pub struct Liquidated {
    pub borrower: Address,
    pub liquidator: Address,
    pub collateral_asset: Address,
    pub debt_covered: U256,
    pub collateral_seized: U256,
    pub liquidation_bonus: U256,
    pub timestamp: u64,
}

/// Pool rates recomputed after a liquidity- or debt-changing operation.
#[derive(Clone, Copy, Debug, PartialEq)]
pub struct InterestRatesUpdated {
    pub borrow_rate: U256,
    pub supply_rate: U256,
    pub utilization_rate: U256,
    pub timestamp: u64,
}

/// Interest accrual preamble of a mutating pool operation.
#[derive(Clone, Copy, Debug, PartialEq)]
pub struct InterestAccrued {
    pub interest_amount: U256,
    pub total_borrows: U256,
    pub timestamp: u64,
}

/// A collateral type added by the admin.
#[derive(Clone, Copy, Debug, PartialEq)]
pub struct CollateralAdded {
    pub asset: Address,
    pub ltv: U256,
    pub liquidation_threshold: U256,
    pub liquidation_bonus: U256,
    pub added_by: Address,
}

/// A collateral type's parameters updated by the admin.
#[derive(Clone, Copy, Debug, PartialEq)]
pub struct CollateralUpdated {
    pub asset: Address,
    pub ltv: U256,
    pub liquidation_threshold: U256,
    pub liquidation_bonus: U256,
    pub updated_by: Address,
}

/// The rate-curve parameters changed by the admin.
#[derive(Clone, Copy, Debug, PartialEq)]
pub struct InterestRateParamsUpdated {
    pub base_rate: U256,
    pub optimal_utilization: U256,
    pub slope1: U256,
    pub slope2: U256,
    pub updated_by: Address,
}

/// The pool paused by the admin.
#[derive(Clone, Copy, Debug, PartialEq)]
pub struct ContractPaused {
    pub paused_by: Address,
    pub timestamp: u64,
}

/// The pool unpaused by the admin.
#[derive(Clone, Copy, Debug, PartialEq)]
pub struct ContractUnpaused {
    pub unpaused_by: Address,
    pub timestamp: u64,
}

/// The reserve factor changed by the admin.
#[derive(Clone, Copy, Debug, PartialEq)]
pub struct ReserveFactorUpdated {
    pub old_factor: U256,
    pub new_factor: U256,
    pub updated_by: Address,
}

/// One entry of a component's event log.
#[derive(Clone, Copy, Debug, PartialEq)]
pub enum LendingEvent {
    Deposited(Deposited),
    Withdrawn(Withdrawn),
    Borrowed(Borrowed),
    Repaid(Repaid),
    CollateralDeposited(CollateralDeposited),
    CollateralWithdrawn(CollateralWithdrawn),
    Liquidated(Liquidated),
    InterestRatesUpdated(InterestRatesUpdated),
    InterestAccrued(InterestAccrued),
    CollateralAdded(CollateralAdded),
    CollateralUpdated(CollateralUpdated),
    ContractPaused(ContractPaused),
    ContractUnpaused(ContractUnpaused),
    ReserveFactorUpdated(ReserveFactorUpdated),
}

} // verus!
