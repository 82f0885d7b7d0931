//! Liquidation math: close-factor capping and bonus economics.

use vstd::prelude::*;
use casper_types::U256;
use crate::Address;
use crate::errors::LendingError;
use crate::num::{
    two_pow_256, u256_as_nat, u256_checked_add, u256_checked_mul, u256_div, u256_from_u64,
    u256_le, u256_lt,
};
use crate::{scale_u256, spec_scale};

verus! {

broadcast use crate::num::lemma_u256_as_nat_bound;

/// Parameters of the liquidation engine, scaled by `10^18`.
#[derive(Clone, Copy, Debug, PartialEq)]
pub struct LiquidationParams {
    /// Largest share of a position's debt one call may cover.
    pub max_liquidation_close_factor: U256,
    /// Health factor below which a position may be liquidated.
    pub liquidation_threshold: U256,
}

/// The liquidation parameters as unbounded naturals.
pub struct LiquidationParamsView {
    pub max_liquidation_close_factor: nat,
    pub liquidation_threshold: nat,
}

impl View for LiquidationParams {
    type V = LiquidationParamsView;

    open spec fn view(&self) -> LiquidationParamsView {
        LiquidationParamsView {
            max_liquidation_close_factor: u256_as_nat(self.max_liquidation_close_factor),
            liquidation_threshold: u256_as_nat(self.liquidation_threshold),
        }
    }
}

/// The largest debt one liquidation call may cover: the close-factor share
/// of the whole debt.
pub open spec fn spec_max_debt_to_cover(total_debt: nat, close_factor: nat) -> nat {
    (total_debt * close_factor) / spec_scale()
}

/// The debt a call covers: the requested amount, capped by the close
/// factor.
pub open spec fn spec_actual_debt(debt_to_cover: nat, total_debt: nat, close_factor: nat) -> nat {
    if debt_to_cover > spec_max_debt_to_cover(total_debt, close_factor) {
        spec_max_debt_to_cover(total_debt, close_factor)
    } else {
        debt_to_cover
    }
}

/// The collateral value seized: the covered debt plus its bonus share.
pub open spec fn spec_collateral_to_seize(actual_debt: nat, liquidation_bonus: nat) -> nat {
    (actual_debt * (spec_scale() + liquidation_bonus)) / spec_scale()
}

/// Whether the liquidation amounts stay within 256 bits.
pub open spec fn spec_liquidation_fits(
    debt_to_cover: nat,
    total_debt: nat,
    close_factor: nat,
    liquidation_bonus: nat,
) -> bool {
    total_debt * close_factor < two_pow_256() && spec_scale() + liquidation_bonus < two_pow_256()
        && spec_actual_debt(debt_to_cover, total_debt, close_factor) * (spec_scale()
        + liquidation_bonus) < two_pow_256()
}

/// The liquidation engine: a singleton holding the close factor and the
/// liquidation threshold.
pub struct LiquidationEngine {
    /// Current parameters.
    pub params: LiquidationParams,
    /// The principal allowed to update them.
    pub admin: Address,
}

impl LiquidationEngine {
    /// The close factor never exceeds one unit.
    pub open spec fn wf(&self) -> bool {
        self.params@.max_liquidation_close_factor <= spec_scale()
    }

    /// Creates the engine with its default parameters: a 50% close factor
    /// and a liquidation threshold of one unit.
    pub fn init(caller: Address) -> (s: Self)
        ensures
            s.admin == caller,
            s.params@.max_liquidation_close_factor == spec_scale() / 2,
            s.params@.liquidation_threshold == spec_scale(),
            s.wf(),
    {
        LiquidationEngine {
            admin: caller,
            params: LiquidationParams {
                max_liquidation_close_factor: u256_from_u64(500_000_000_000_000_000u64),
                liquidation_threshold: u256_from_u64(1_000_000_000_000_000_000u64),
            },
        }
    }

    /// How much debt a liquidation call covers and how much collateral
    /// value it seizes; fails when the seized value would exceed the
    /// collateral on hand, or when an intermediate product needs more than
    /// 256 bits.
    pub fn calculate_liquidation_amounts(
        &self,
        debt_to_cover: U256,
        total_debt: U256,
        collateral_value: U256,
        liquidation_bonus: U256,
    ) -> (r: Result<(U256, U256), LendingError>)
        ensures
            match r {
                Ok(v) => spec_liquidation_fits(
                    u256_as_nat(debt_to_cover),
                    u256_as_nat(total_debt),
                    self.params@.max_liquidation_close_factor,
                    u256_as_nat(liquidation_bonus),
                ) && u256_as_nat(v.0) == spec_actual_debt(
                    u256_as_nat(debt_to_cover),
                    u256_as_nat(total_debt),
                    self.params@.max_liquidation_close_factor,
                ) && u256_as_nat(v.1) == spec_collateral_to_seize(
                    u256_as_nat(v.0),
                    u256_as_nat(liquidation_bonus),
                ) && u256_as_nat(v.1) <= u256_as_nat(collateral_value),
                Err(e) => (e == LendingError::MathOverflow && !spec_liquidation_fits(
                    u256_as_nat(debt_to_cover),
                    u256_as_nat(total_debt),
                    self.params@.max_liquidation_close_factor,
                    u256_as_nat(liquidation_bonus),
                )) || (e == LendingError::InsufficientCollateralForLiquidation
                    && spec_liquidation_fits(
                    u256_as_nat(debt_to_cover),
                    u256_as_nat(total_debt),
                    self.params@.max_liquidation_close_factor,
                    u256_as_nat(liquidation_bonus),
                ) && spec_collateral_to_seize(
                    spec_actual_debt(
                        u256_as_nat(debt_to_cover),
                        u256_as_nat(total_debt),
                        self.params@.max_liquidation_close_factor,
                    ),
                    u256_as_nat(liquidation_bonus),
                ) > u256_as_nat(collateral_value)),
            },
            r is Ok <==> (spec_liquidation_fits(
                u256_as_nat(debt_to_cover),
                u256_as_nat(total_debt),
                self.params@.max_liquidation_close_factor,
                u256_as_nat(liquidation_bonus),
            ) && spec_collateral_to_seize(
                spec_actual_debt(
                    u256_as_nat(debt_to_cover),
                    u256_as_nat(total_debt),
                    self.params@.max_liquidation_close_factor,
                ),
                u256_as_nat(liquidation_bonus),
            ) <= u256_as_nat(collateral_value)),
    {
        let scale = scale_u256();
        let scaled_debt = match u256_checked_mul(&total_debt, &self.params.max_liquidation_close_factor) {
            Some(v) => v,
            None => {
                return Err(LendingError::MathOverflow);
            },
        };
        let max_debt_to_cover = u256_div(&scaled_debt, &scale);
        let actual_debt = if u256_lt(&max_debt_to_cover, &debt_to_cover) {
            max_debt_to_cover
        } else {
            debt_to_cover
        };
        let bonus_multiplier = match u256_checked_add(&scale, &liquidation_bonus) {
            Some(v) => v,
            None => {
                return Err(LendingError::MathOverflow);
            },
        };
        let scaled_seize = match u256_checked_mul(&actual_debt, &bonus_multiplier) {
            Some(v) => v,
            None => {
                return Err(LendingError::MathOverflow);
            },
        };
        let collateral_to_seize = u256_div(&scaled_seize, &scale);
        if u256_lt(&collateral_value, &collateral_to_seize) {
            return Err(LendingError::InsufficientCollateralForLiquidation);
        }
        Ok((actual_debt, collateral_to_seize))
    }

    /// Whether a health factor is low enough to liquidate: strictly below
    /// the threshold, so equality stays healthy.
    pub fn can_liquidate(&self, health_factor: U256) -> (r: bool)
        ensures
            r == (u256_as_nat(health_factor) < self.params@.liquidation_threshold),
    {
        u256_lt(&health_factor, &self.params.liquidation_threshold)
    }

    /// The current parameters.
    pub fn get_params(&self) -> (r: LiquidationParams)
        ensures
            r@ == self.params@,
    {
        self.params
    }

    /// Replaces the parameters; only the admin may, and the close factor
    /// may not exceed one unit.
    pub fn update_params(
        &mut self,
        caller: Address,
        max_liquidation_close_factor: U256,
        liquidation_threshold: U256,
    ) -> (r: Result<(), LendingError>)
        ensures
            match r {
                Ok(()) => caller == old(self).admin && u256_as_nat(max_liquidation_close_factor)
                    <= spec_scale() && final(self).admin == old(self).admin
                    && final(self).params@.max_liquidation_close_factor == u256_as_nat(
                    max_liquidation_close_factor,
                ) && final(self).params@.liquidation_threshold == u256_as_nat(
                    liquidation_threshold,
                ),
                Err(e) => *final(self) == *old(self) && ((e == LendingError::Unauthorized && caller
                    != old(self).admin) || (e == LendingError::InvalidConfiguration && caller
                    == old(self).admin && u256_as_nat(max_liquidation_close_factor)
                    > spec_scale())),
            },
            r is Ok <==> (caller == old(self).admin && u256_as_nat(max_liquidation_close_factor)
                <= spec_scale()),
            old(self).wf() ==> final(self).wf(),
    {
        if caller != self.admin {
            return Err(LendingError::Unauthorized);
        }
        let scale = scale_u256();
        if !u256_le(&max_liquidation_close_factor, &scale) {
            return Err(LendingError::InvalidConfiguration);
        }
        self.params = LiquidationParams { max_liquidation_close_factor, liquidation_threshold };
        Ok(())
    }
}

} // verus!
