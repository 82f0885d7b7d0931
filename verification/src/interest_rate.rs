//! Two-slope interest-rate strategy over pool utilization.

use vstd::prelude::*;
use vstd::arithmetic::div_mod::{lemma_div_is_ordered, lemma_div_multiples_vanish};
use vstd::arithmetic::mul::{lemma_mul_inequality, lemma_mul_is_commutative};
use casper_types::U256;
use crate::errors::LendingError;
use crate::num::{
    two_pow_256, u256_add, u256_as_nat, u256_checked_add, u256_checked_mul, u256_div,
    u256_is_zero, u256_le, u256_mul, u256_sub, u256_zero,
};
use crate::{scale_u256, spec_scale};

verus! {

broadcast use crate::num::lemma_u256_as_nat_bound;

/// Parameters of the two-slope rate curve, each scaled by `10^18`.
#[derive(Clone, Copy, Debug, PartialEq)]
pub struct InterestRateParams {
    /// Minimum annual rate at zero utilization.
    pub base_rate: U256,
    /// Target utilization where the steep slope begins.
    pub optimal_utilization: U256,
    /// Rate increase over the band below the optimum.
    pub slope1: U256,
    /// Rate increase over the band above the optimum.
    pub slope2: U256,
}

/// The rate parameters as unbounded naturals.
pub struct RateParamsView {
    pub base_rate: nat,
    pub optimal_utilization: nat,
    pub slope1: nat,
    pub slope2: nat,
}

impl View for InterestRateParams {
    type V = RateParamsView;

    open spec fn view(&self) -> RateParamsView {
        RateParamsView {
            base_rate: u256_as_nat(self.base_rate),
            optimal_utilization: u256_as_nat(self.optimal_utilization),
            slope1: u256_as_nat(self.slope1),
            slope2: u256_as_nat(self.slope2),
        }
    }
}

/// Pool utilization scaled by `10^18`: borrowed share of all pooled assets,
/// zero when nothing is borrowed.
pub open spec fn spec_utilization(borrows: nat, liquidity: nat) -> nat {
    if borrows == 0 {
        0
    } else {
        (borrows * spec_scale()) / (borrows + liquidity)
    }
}

/// Whether the utilization computation stays within 256 bits.
pub open spec fn spec_utilization_fits(borrows: nat, liquidity: nat) -> bool {
    borrows == 0 || (borrows + liquidity < two_pow_256() && borrows * spec_scale()
        < two_pow_256())
}

/// Utilization never exceeds the scale: the borrowed share is at most one.
pub proof fn lemma_utilization_le_scale(borrows: nat, liquidity: nat)
    ensures
        spec_utilization(borrows, liquidity) <= spec_scale(),
{
    if borrows > 0 {
        let total = (borrows + liquidity) as int;
        let s = spec_scale() as int;
        lemma_mul_inequality(borrows as int, total, s);
        lemma_div_is_ordered((borrows * spec_scale()) as int, total * s, total);
        lemma_mul_is_commutative(total, s);
        lemma_div_multiples_vanish(s, total);
    }
}

/// The annual borrow rate for a utilization: the gentle slope up to the
/// optimum, the steep slope past it, with ties going to the gentle branch.
pub open spec fn spec_borrow_rate(p: RateParamsView, u: nat) -> nat {
    if u == 0 {
        p.base_rate
    } else if u <= p.optimal_utilization {
        p.base_rate + (u * p.slope1) / p.optimal_utilization
    } else {
        p.base_rate + p.slope1 + ((((u - p.optimal_utilization) as nat) * spec_scale()) / ((
        spec_scale() - p.optimal_utilization) as nat)) * p.slope2 / spec_scale()
    }
}

/// Whether the borrow-rate computation stays within 256 bits.
pub open spec fn spec_borrow_rate_fits(p: RateParamsView, u: nat) -> bool {
    if u == 0 {
        true
    } else if u <= p.optimal_utilization {
        u * p.slope1 < two_pow_256() && p.base_rate + (u * p.slope1) / p.optimal_utilization
            < two_pow_256()
    } else {
        ((u - p.optimal_utilization) as nat) * spec_scale() < two_pow_256() && ((((u
            - p.optimal_utilization) as nat) * spec_scale()) / ((spec_scale()
            - p.optimal_utilization) as nat)) * p.slope2 < two_pow_256() && p.base_rate + p.slope1
            + ((((u - p.optimal_utilization) as nat) * spec_scale()) / ((spec_scale()
            - p.optimal_utilization) as nat)) * p.slope2 / spec_scale() < two_pow_256()
    }
}

/// The annual supply rate: the borrow rate weighted by utilization, less the
/// reserve skim.
pub open spec fn spec_supply_rate(borrow_rate: nat, reserve_factor: nat, u: nat) -> nat {
    if u == 0 {
        0
    } else {
        ((borrow_rate * ((spec_scale() - reserve_factor) as nat)) / spec_scale()) * u
            / spec_scale()
    }
}

/// Whether the supply-rate computation stays within 256 bits.
pub open spec fn spec_supply_rate_fits(borrow_rate: nat, reserve_factor: nat, u: nat) -> bool {
    u == 0 || (borrow_rate * ((spec_scale() - reserve_factor) as nat) < two_pow_256() && ((
    borrow_rate * ((spec_scale() - reserve_factor) as nat)) / spec_scale()) * u < two_pow_256())
}

/// The interest-rate strategy: a singleton holding the curve parameters.
pub struct InterestRateStrategy {
    /// Current curve parameters.
    pub params: InterestRateParams,
}

impl InterestRateStrategy {
    /// Creates the strategy with the given curve parameters.
    pub fn init(base_rate: U256, optimal_utilization: U256, slope1: U256, slope2: U256) -> (s:
        Self)
        ensures
            s.params@.base_rate == u256_as_nat(base_rate),
            s.params@.optimal_utilization == u256_as_nat(optimal_utilization),
            s.params@.slope1 == u256_as_nat(slope1),
            s.params@.slope2 == u256_as_nat(slope2),
    {
        InterestRateStrategy {
            params: InterestRateParams { base_rate, optimal_utilization, slope1, slope2 },
        }
    }

    /// The utilization for the given pool totals.
    pub fn calculate_utilization_rate(&self, total_borrows: U256, total_liquidity: U256) -> (r:
        U256)
        requires
            spec_utilization_fits(u256_as_nat(total_borrows), u256_as_nat(total_liquidity)),
        ensures
            u256_as_nat(r) == spec_utilization(
                u256_as_nat(total_borrows),
                u256_as_nat(total_liquidity),
            ),
    {
        if u256_is_zero(&total_borrows) {
            return u256_zero();
        }
        let total_deposits = u256_add(&total_borrows, &total_liquidity);
        if u256_is_zero(&total_deposits) {
            return u256_zero();
        }
        let scale = scale_u256();
        let scaled = u256_mul(&total_borrows, &scale);
        u256_div(&scaled, &total_deposits)
    }

    /// The borrow rate for the given pool totals.
    pub fn calculate_borrow_rate(&self, total_borrows: U256, total_liquidity: U256) -> (r: U256)
        requires
            spec_utilization_fits(u256_as_nat(total_borrows), u256_as_nat(total_liquidity)),
            spec_borrow_rate_fits(
                self.params@,
                spec_utilization(u256_as_nat(total_borrows), u256_as_nat(total_liquidity)),
            ),
        ensures
            u256_as_nat(r) == spec_borrow_rate(
                self.params@,
                spec_utilization(u256_as_nat(total_borrows), u256_as_nat(total_liquidity)),
            ),
    {
        let utilization = self.calculate_utilization_rate(total_borrows, total_liquidity);
        proof {
            lemma_utilization_le_scale(u256_as_nat(total_borrows), u256_as_nat(total_liquidity));
        }
        if u256_is_zero(&utilization) {
            return self.params.base_rate;
        }
        let scale = scale_u256();
        if u256_le(&utilization, &self.params.optimal_utilization) {
            let scaled = u256_mul(&utilization, &self.params.slope1);
            let rate_increase = u256_div(&scaled, &self.params.optimal_utilization);
            u256_add(&self.params.base_rate, &rate_increase)
        } else {
            let excess_utilization = u256_sub(&utilization, &self.params.optimal_utilization);
            let gap = u256_sub(&scale, &self.params.optimal_utilization);
            let scaled_excess = u256_mul(&excess_utilization, &scale);
            let excess_utilization_ratio = u256_div(&scaled_excess, &gap);
            let excess_scaled = u256_mul(&excess_utilization_ratio, &self.params.slope2);
            let excess_rate = u256_div(&excess_scaled, &scale);
            let below = u256_add(&self.params.base_rate, &self.params.slope1);
            u256_add(&below, &excess_rate)
        }
    }

    /// The supply rate for the given borrow rate, pool totals and reserve
    /// factor.
    pub fn calculate_supply_rate(
        &self,
        borrow_rate: U256,
        total_borrows: U256,
        total_liquidity: U256,
        reserve_factor: U256,
    ) -> (r: U256)
        requires
            spec_utilization_fits(u256_as_nat(total_borrows), u256_as_nat(total_liquidity)),
            u256_as_nat(reserve_factor) <= spec_scale(),
            spec_supply_rate_fits(
                u256_as_nat(borrow_rate),
                u256_as_nat(reserve_factor),
                spec_utilization(u256_as_nat(total_borrows), u256_as_nat(total_liquidity)),
            ),
        ensures
            u256_as_nat(r) == spec_supply_rate(
                u256_as_nat(borrow_rate),
                u256_as_nat(reserve_factor),
                spec_utilization(u256_as_nat(total_borrows), u256_as_nat(total_liquidity)),
            ),
    {
        let utilization = self.calculate_utilization_rate(total_borrows, total_liquidity);
        if u256_is_zero(&utilization) {
            return u256_zero();
        }
        let scale = scale_u256();
        let kept = u256_sub(&scale, &reserve_factor);
        let scaled = u256_mul(&borrow_rate, &kept);
        let rate_to_pool = u256_div(&scaled, &scale);
        let weighted = u256_mul(&rate_to_pool, &utilization);
        u256_div(&weighted, &scale)
    }


    /// The utilization for the given pool totals, with every intermediate
    /// checked instead of assumed to fit.
    pub fn try_calculate_utilization_rate(&self, total_borrows: U256, total_liquidity: U256) -> (r:
        Result<U256, LendingError>)
        ensures
            match r {
                Ok(v) => spec_utilization_fits(
                    u256_as_nat(total_borrows),
                    u256_as_nat(total_liquidity),
                ) && u256_as_nat(v) == spec_utilization(
                    u256_as_nat(total_borrows),
                    u256_as_nat(total_liquidity),
                ),
                Err(e) => e == LendingError::MathOverflow && !spec_utilization_fits(
                    u256_as_nat(total_borrows),
                    u256_as_nat(total_liquidity),
                ),
            },
            r is Ok <==> spec_utilization_fits(
                u256_as_nat(total_borrows),
                u256_as_nat(total_liquidity),
            ),
    {
        if u256_is_zero(&total_borrows) {
            return Ok(u256_zero());
        }
        let total_deposits = match u256_checked_add(&total_borrows, &total_liquidity) {
            Some(v) => v,
            None => {
                return Err(LendingError::MathOverflow);
            },
        };
        let scale = scale_u256();
        let scaled = match u256_checked_mul(&total_borrows, &scale) {
            Some(v) => v,
            None => {
                return Err(LendingError::MathOverflow);
            },
        };
        Ok(u256_div(&scaled, &total_deposits))
    }

    /// The borrow rate for the given pool totals, with every intermediate
    /// checked instead of assumed to fit.
    pub fn try_calculate_borrow_rate(&self, total_borrows: U256, total_liquidity: U256) -> (r:
        Result<U256, LendingError>)
        ensures
            match r {
                Ok(v) => spec_utilization_fits(
                    u256_as_nat(total_borrows),
                    u256_as_nat(total_liquidity),
                ) && spec_borrow_rate_fits(
                    self.params@,
                    spec_utilization(u256_as_nat(total_borrows), u256_as_nat(total_liquidity)),
                ) && u256_as_nat(v) == spec_borrow_rate(
                    self.params@,
                    spec_utilization(u256_as_nat(total_borrows), u256_as_nat(total_liquidity)),
                ),
                Err(e) => e == LendingError::MathOverflow,
            },
            r is Ok <==> (spec_utilization_fits(
                u256_as_nat(total_borrows),
                u256_as_nat(total_liquidity),
            ) && spec_borrow_rate_fits(
                self.params@,
                spec_utilization(u256_as_nat(total_borrows), u256_as_nat(total_liquidity)),
            )),
    {
        let utilization = match self.try_calculate_utilization_rate(
            total_borrows,
            total_liquidity,
        ) {
            Ok(v) => v,
            Err(e) => {
                return Err(e);
            },
        };
        proof {
            lemma_utilization_le_scale(u256_as_nat(total_borrows), u256_as_nat(total_liquidity));
        }
        if u256_is_zero(&utilization) {
            return Ok(self.params.base_rate);
        }
        let scale = scale_u256();
        if u256_le(&utilization, &self.params.optimal_utilization) {
            let scaled = match u256_checked_mul(&utilization, &self.params.slope1) {
                Some(v) => v,
                None => {
                    return Err(LendingError::MathOverflow);
                },
            };
            let rate_increase = u256_div(&scaled, &self.params.optimal_utilization);
            match u256_checked_add(&self.params.base_rate, &rate_increase) {
                Some(v) => Ok(v),
                None => Err(LendingError::MathOverflow),
            }
        } else {
            let excess_utilization = u256_sub(&utilization, &self.params.optimal_utilization);
            let gap = u256_sub(&scale, &self.params.optimal_utilization);
            let scaled_excess = match u256_checked_mul(&excess_utilization, &scale) {
                Some(v) => v,
                None => {
                    return Err(LendingError::MathOverflow);
                },
            };
            let excess_utilization_ratio = u256_div(&scaled_excess, &gap);
            let excess_scaled = match u256_checked_mul(
                &excess_utilization_ratio,
                &self.params.slope2,
            ) {
                Some(v) => v,
                None => {
                    return Err(LendingError::MathOverflow);
                },
            };
            let excess_rate = u256_div(&excess_scaled, &scale);
            let below = match u256_checked_add(&self.params.base_rate, &self.params.slope1) {
                Some(v) => v,
                None => {
                    return Err(LendingError::MathOverflow);
                },
            };
            match u256_checked_add(&below, &excess_rate) {
                Some(v) => Ok(v),
                None => Err(LendingError::MathOverflow),
            }
        }
    }

    /// The supply rate for the given borrow rate, pool totals and reserve
    /// factor, with every intermediate checked instead of assumed to fit.
    pub fn try_calculate_supply_rate(
        &self,
        borrow_rate: U256,
        total_borrows: U256,
        total_liquidity: U256,
        reserve_factor: U256,
    ) -> (r: Result<U256, LendingError>)
        requires
            u256_as_nat(reserve_factor) <= spec_scale(),
        ensures
            match r {
                Ok(v) => spec_utilization_fits(
                    u256_as_nat(total_borrows),
                    u256_as_nat(total_liquidity),
                ) && spec_supply_rate_fits(
                    u256_as_nat(borrow_rate),
                    u256_as_nat(reserve_factor),
                    spec_utilization(u256_as_nat(total_borrows), u256_as_nat(total_liquidity)),
                ) && u256_as_nat(v) == spec_supply_rate(
                    u256_as_nat(borrow_rate),
                    u256_as_nat(reserve_factor),
                    spec_utilization(u256_as_nat(total_borrows), u256_as_nat(total_liquidity)),
                ),
                Err(e) => e == LendingError::MathOverflow,
            },
            r is Ok <==> (spec_utilization_fits(
                u256_as_nat(total_borrows),
                u256_as_nat(total_liquidity),
            ) && spec_supply_rate_fits(
                u256_as_nat(borrow_rate),
                u256_as_nat(reserve_factor),
                spec_utilization(u256_as_nat(total_borrows), u256_as_nat(total_liquidity)),
            )),
    {
        let utilization = match self.try_calculate_utilization_rate(
            total_borrows,
            total_liquidity,
        ) {
            Ok(v) => v,
            Err(e) => {
                return Err(e);
            },
        };
        if u256_is_zero(&utilization) {
            return Ok(u256_zero());
        }
        let scale = scale_u256();
        let kept = u256_sub(&scale, &reserve_factor);
        let scaled = match u256_checked_mul(&borrow_rate, &kept) {
            Some(v) => v,
            None => {
                return Err(LendingError::MathOverflow);
            },
        };
        let rate_to_pool = u256_div(&scaled, &scale);
        let weighted = match u256_checked_mul(&rate_to_pool, &utilization) {
            Some(v) => v,
            None => {
                return Err(LendingError::MathOverflow);
            },
        };
        Ok(u256_div(&weighted, &scale))
    }

    /// The current curve parameters.
    pub fn get_params(&self) -> (r: InterestRateParams)
        ensures
            r@ == self.params@,
    {
        self.params
    }

    /// Replaces the curve parameters.
    pub fn update_params(
        &mut self,
        base_rate: U256,
        optimal_utilization: U256,
        slope1: U256,
        slope2: U256,
    )
        ensures
            final(self).params@.base_rate == u256_as_nat(base_rate),
            final(self).params@.optimal_utilization == u256_as_nat(optimal_utilization),
            final(self).params@.slope1 == u256_as_nat(slope1),
            final(self).params@.slope2 == u256_as_nat(slope2),
    {
        self.params = InterestRateParams { base_rate, optimal_utilization, slope1, slope2 };
    }
}

} // verus!
