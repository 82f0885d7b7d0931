//! The lending pool: the orchestrator of deposits, withdrawals, borrows,
//! repayments and liquidations, holding the aggregate ledger and the rate
//! snapshot, and driving the vault, the collateral manager, the price
//! oracle, the rate strategy and the liquidation engine in a fixed order.
//!
//! Every entry point is atomic: it either commits its whole state
//! transition and records its events, or fails with a typed error and
//! leaves every component untouched.

use vstd::prelude::*;
use vstd::pervasive::unreached;
use vstd::arithmetic::div_mod::{
    lemma_div_is_ordered, lemma_div_multiples_vanish, lemma_fundamental_div_mod,
};
use vstd::arithmetic::mul::{lemma_mul_inequality, lemma_mul_is_commutative};
use std::collections::HashMap;
use casper_types::U256;
use crate::Address;
use crate::aecto_vault::{
    AectoVault, spec_convert_to_shares, spec_convert_to_shares_fits,
};
use crate::collateral_manager::{
    CollateralManager, CollateralWeighting, spec_health_factor_result, spec_sum_result,
};
use crate::errors::LendingError;
use crate::events::{
    Borrowed, ContractPaused, ContractUnpaused, Deposited, InterestAccrued, InterestRatesUpdated,
    LendingEvent, Liquidated, Repaid, ReserveFactorUpdated, Withdrawn,
};
use crate::interest_rate::{
    InterestRateStrategy, RateParamsView, spec_borrow_rate, spec_borrow_rate_fits,
    spec_supply_rate, spec_supply_rate_fits, spec_utilization, spec_utilization_fits,
};
use crate::liquidation::{
    LiquidationEngine, spec_actual_debt, spec_collateral_to_seize, spec_liquidation_fits,
};
use crate::num::{
    two_pow_256, u256_as_nat, u256_checked_add, u256_checked_mul, u256_div, u256_is_zero,
    u256_le, u256_lt, u256_sub, u256_zero,
};
use crate::price_oracle::PriceOracle;
use crate::{scale_u256, spec_scale};

verus! {

broadcast use crate::num::lemma_u256_as_nat_bound, vstd::std_specs::hash::group_hash_axioms;

/// One user's borrow position: principal and separately tracked accrued
/// interest, with the time of the last touch. Fully repaid positions are
/// zeroed, never removed.
#[derive(Clone, Copy, Debug, PartialEq)]
pub struct BorrowPosition {
    pub user: Address,
    pub principal: U256,
    pub interest_accrued: U256,
    pub last_update: u64,
}

/// Whether all three rate computations for the given totals stay within
/// 256 bits.
pub open spec fn spec_rates_fits(
    p: RateParamsView,
    reserve_factor: nat,
    borrows: nat,
    liquidity: nat,
) -> bool {
    &&& spec_utilization_fits(borrows, liquidity)
    &&& spec_borrow_rate_fits(p, spec_utilization(borrows, liquidity))
    &&& spec_supply_rate_fits(
        spec_borrow_rate(p, spec_utilization(borrows, liquidity)),
        reserve_factor,
        spec_utilization(borrows, liquidity),
    )
}

/// The three log entries every successful pool operation appends: the
/// accrual preamble, the fresh rate snapshot, and the operation's own
/// event.
pub open spec fn spec_op_events(
    old_events: Seq<LendingEvent>,
    new_events: Seq<LendingEvent>,
    old_borrows: U256,
    new_borrow_rate: U256,
    new_supply_rate: U256,
    util: nat,
    now: u64,
) -> bool {
    &&& new_events.len() == old_events.len() + 3
    &&& new_events.subrange(0, old_events.len() as int) == old_events
    &&& (new_events[old_events.len() as int] matches LendingEvent::InterestAccrued(a)
        && u256_as_nat(a.interest_amount) == 0 && a.total_borrows == old_borrows && a.timestamp
        == now)
    &&& (new_events[old_events.len() as int + 1] matches LendingEvent::InterestRatesUpdated(a)
        && a.borrow_rate == new_borrow_rate && a.supply_rate == new_supply_rate && u256_as_nat(
        a.utilization_rate,
    ) == util && a.timestamp == now)
}


/// Scaling by a factor of at most the divisor never grows a value.
proof fn lemma_mul_div_le_factor(x: nat, y: nat, d: nat)
    requires
        d > 0,
        y <= d,
    ensures
        (x * y) / d <= x,
{
    lemma_mul_inequality(y as int, d as int, x as int);
    lemma_mul_is_commutative(x as int, y as int);
    lemma_mul_is_commutative(x as int, d as int);
    lemma_div_is_ordered((x * y) as int, (x * d) as int, d as int);
    lemma_div_multiples_vanish(x as int, d as int);
}

/// The close-factor cap keeps the covered debt within the whole debt.
proof fn lemma_actual_le_debt(dtc: nat, d: nat, cf: nat)
    requires
        cf <= spec_scale(),
    ensures
        spec_actual_debt(dtc, d, cf) <= d,
{
    lemma_mul_div_le_factor(d, cf, spec_scale());
}

/// The seized collateral value always covers the debt it pays.
proof fn lemma_seize_ge_actual(a: nat, bonus: nat)
    ensures
        spec_collateral_to_seize(a, bonus) >= a,
{
    lemma_mul_inequality(spec_scale() as int, (spec_scale() + bonus) as int, a as int);
    lemma_mul_is_commutative(a as int, spec_scale() as int);
    lemma_mul_is_commutative(a as int, (spec_scale() + bonus) as int);
    lemma_div_is_ordered(
        (a * spec_scale()) as int,
        (a * (spec_scale() + bonus)) as int,
        spec_scale() as int,
    );
    lemma_div_multiples_vanish(a as int, spec_scale() as int);
}

/// Splitting a covered amount proportionally to the principal leaves an
/// interest share within the interest, and shares within their wholes.
proof fn lemma_proportional_split(p: nat, i: nat, a: nat)
    requires
        a <= p + i,
        p + i > 0,
    ensures
        (p * a) / (p + i) <= a,
        (p * a) / (p + i) <= p,
        a - (p * a) / (p + i) <= i,
{
    let d = (p + i) as int;
    lemma_mul_is_commutative(p as int, a as int);
    lemma_mul_div_le_factor(a, p, p + i);
    lemma_mul_div_le_factor(p, a, p + i);
    lemma_fundamental_div_mod((p * a) as int, d);
    let q = (p * a) as int / d;
    assert(a - i <= q) by (nonlinear_arith)
        requires
            (p * a) as int == d * q + (p * a) as int % d,
            0 <= (p * a) as int % d < d,
            d == p + i,
            a <= d,
            a >= 0 && p >= 0 && i >= 0,
    ;
}

/// The lending pool.
pub struct LendingPool {
    /// Borrow positions by user.
    pub borrow_positions: HashMap<Address, BorrowPosition>,
    /// Principal plus accrued interest lent out.
    pub total_borrows: U256,
    /// Base asset available in the pool.
    pub total_liquidity: U256,
    /// Current annual borrow rate, scaled by `10^18`.
    pub borrow_rate: U256,
    /// Current annual supply rate, scaled by `10^18`.
    pub supply_rate: U256,
    /// Share of repaid interest kept as reserves, scaled by `10^18`.
    pub reserve_factor: U256,
    /// Reserves accumulated so far.
    pub total_reserves: U256,
    /// The principal allowed to pause and to set the reserve factor.
    pub admin: Address,
    /// Whether mutating entry points are refused.
    pub paused: bool,
    /// The pool's own identity, under which it calls the vault.
    pub pool_address: Address,
    /// The audit log.
    pub events: Vec<LendingEvent>,
}

impl LendingPool {
    /// The reserve factor never exceeds one unit.
    pub open spec fn wf(&self) -> bool {
        u256_as_nat(self.reserve_factor) <= spec_scale()
    }

    /// A user's outstanding debt: principal plus accrued interest, zero
    /// without a position.
    pub open spec fn spec_debt_of(&self, user: Address) -> nat {
        if self.borrow_positions@.contains_key(user) {
            u256_as_nat(self.borrow_positions@[user].principal) + u256_as_nat(
                self.borrow_positions@[user].interest_accrued,
            )
        } else {
            0
        }
    }

    /// Everything a deposit, withdrawal, borrow, repayment or liquidation
    /// leaves alone.
    pub open spec fn same_admin_config(&self, other: &Self) -> bool {
        self.admin == other.admin && self.paused == other.paused && self.pool_address
            == other.pool_address && self.reserve_factor == other.reserve_factor
    }

    /// Creates the pool: empty ledger, zero rates, a reserve factor of one
    /// tenth, unpaused.
    pub fn init(caller: Address, pool_address: Address) -> (s: Self)
        ensures
            s.borrow_positions@ == Map::<Address, BorrowPosition>::empty(),
            u256_as_nat(s.total_borrows) == 0,
            u256_as_nat(s.total_liquidity) == 0,
            u256_as_nat(s.borrow_rate) == 0,
            u256_as_nat(s.supply_rate) == 0,
            u256_as_nat(s.reserve_factor) == spec_scale() / 10,
            u256_as_nat(s.total_reserves) == 0,
            s.admin == caller,
            !s.paused,
            s.pool_address == pool_address,
            s.events@ == Seq::<LendingEvent>::empty(),
            s.wf(),
    {
        LendingPool {
            borrow_positions: HashMap::new(),
            total_borrows: u256_zero(),
            total_liquidity: u256_zero(),
            borrow_rate: u256_zero(),
            supply_rate: u256_zero(),
            reserve_factor: crate::num::u256_from_u64(100_000_000_000_000_000u64),
            total_reserves: u256_zero(),
            admin: caller,
            paused: false,
            pool_address: pool_address,
            events: Vec::new(),
        }
    }

    /// Whether every intermediate of a deposit stays within 256 bits.
    pub open spec fn spec_deposit_fits(
        &self,
        vault: &AectoVault,
        strategy: &InterestRateStrategy,
        caller: Address,
        amount: nat,
    ) -> bool {
        let b = u256_as_nat(self.total_borrows);
        let l = u256_as_nat(self.total_liquidity);
        let sup = u256_as_nat(vault.total_supply);
        let ast = u256_as_nat(vault.total_assets);
        let sh = spec_convert_to_shares(sup, ast, amount);
        &&& l + amount < two_pow_256()
        &&& spec_convert_to_shares_fits(sup, ast, amount)
        &&& l + amount + b < two_pow_256()
        &&& sup + sh < two_pow_256()
        &&& vault.spec_balance_of(caller) + sh < two_pow_256()
        &&& spec_rates_fits(strategy.params@, u256_as_nat(self.reserve_factor), b, l + amount)
    }

    /// Whether a withdrawal is owed success: the pool can pay, the shares
    /// are backed, and every intermediate stays within 256 bits.
    pub open spec fn spec_withdraw_ok(
        &self,
        vault: &AectoVault,
        strategy: &InterestRateStrategy,
        caller: Address,
        amount: nat,
    ) -> bool {
        let b = u256_as_nat(self.total_borrows);
        let l = u256_as_nat(self.total_liquidity);
        let sup = u256_as_nat(vault.total_supply);
        let ast = u256_as_nat(vault.total_assets);
        let sh = spec_convert_to_shares(sup, ast, amount);
        &&& !self.paused
        &&& amount <= l
        &&& spec_convert_to_shares_fits(sup, ast, amount)
        &&& vault.spec_balance_of(caller) >= sh
        &&& sup >= sh
        &&& (l - amount) + b < two_pow_256()
        &&& spec_rates_fits(
            strategy.params@,
            u256_as_nat(self.reserve_factor),
            b,
            (l - amount) as nat,
        )
    }

    /// Deposits base asset: liquidity grows by the amount, shares are
    /// minted to the caller at the running exchange rate, the vault's
    /// recorded assets follow the ledger, and the rates are recomputed.
    pub fn deposit(
        &mut self,
        vault: &mut AectoVault,
        strategy: &InterestRateStrategy,
        caller: Address,
        now: u64,
        amount: U256,
    ) -> (r: Result<U256, LendingError>)
        requires
            old(self).wf(),
            old(vault).lending_pool == old(self).pool_address,
        ensures
            final(self).wf(),
            r is Err ==> *final(self) == *old(self) && *final(vault) == *old(vault),
            match r {
                Ok(shares) => {
                    let b = u256_as_nat(old(self).total_borrows);
                    let l = u256_as_nat(old(self).total_liquidity);
                    let sup = u256_as_nat(old(vault).total_supply);
                    let ast = u256_as_nat(old(vault).total_assets);
                    let sh = spec_convert_to_shares(sup, ast, u256_as_nat(amount));
                    &&& !old(self).paused
                    &&& u256_as_nat(shares) == sh
                    &&& u256_as_nat(final(self).total_liquidity) == l + u256_as_nat(amount)
                    &&& final(self).total_borrows == old(self).total_borrows
                    &&& final(self).total_reserves == old(self).total_reserves
                    &&& final(self).borrow_positions@ == old(self).borrow_positions@
                    &&& final(self).same_admin_config(old(self))
                    &&& u256_as_nat(final(self).borrow_rate) == spec_borrow_rate(
                        strategy.params@,
                        spec_utilization(b, l + u256_as_nat(amount)),
                    )
                    &&& u256_as_nat(final(self).supply_rate) == spec_supply_rate(
                        u256_as_nat(final(self).borrow_rate),
                        u256_as_nat(old(self).reserve_factor),
                        spec_utilization(b, l + u256_as_nat(amount)),
                    )
                    &&& u256_as_nat(final(vault).total_supply) == sup + sh
                    &&& final(vault).spec_balance_of(caller) == old(vault).spec_balance_of(caller)
                        + sh
                    &&& forall|h: Address|
                        h != caller ==> final(vault).spec_balance_of(h) == old(
                            vault,
                        ).spec_balance_of(h)
                    &&& u256_as_nat(final(vault).total_assets) == l + u256_as_nat(amount) + b
                    &&& final(vault).same_config(old(vault))
                    &&& spec_op_events(
                        old(self).events@,
                        final(self).events@,
                        old(self).total_borrows,
                        final(self).borrow_rate,
                        final(self).supply_rate,
                        spec_utilization(b, l + u256_as_nat(amount)),
                        now,
                    )
                    &&& final(self).events@[old(self).events@.len() as int + 2]
                        == LendingEvent::Deposited(
                        (Deposited { user: caller, amount, shares, timestamp: now }),
                    )
                },
                Err(e) => (e == LendingError::ContractPaused && old(self).paused) || (e
                    == LendingError::MathOverflow && !old(self).paused),
            },
            old(self).paused ==> r == Result::<U256, LendingError>::Err(
                LendingError::ContractPaused,
            ),
            r is Ok <==> (!old(self).paused && old(self).spec_deposit_fits(
                old(vault),
                strategy,
                caller,
                u256_as_nat(amount),
            )),
    {
        if self.paused {
            return Err(LendingError::ContractPaused);
        }
        let new_liquidity = match u256_checked_add(&self.total_liquidity, &amount) {
            Some(v) => v,
            None => {
                return Err(LendingError::MathOverflow);
            },
        };
        let shares: U256;
        if u256_is_zero(&vault.total_supply) || u256_is_zero(&vault.total_assets) {
            shares = amount;
        } else {
            let scaled = match u256_checked_mul(&amount, &vault.total_supply) {
                Some(v) => v,
                None => {
                    return Err(LendingError::MathOverflow);
                },
            };
            shares = u256_div(&scaled, &vault.total_assets);
        }
        let new_total_assets = match u256_checked_add(&new_liquidity, &self.total_borrows) {
            Some(v) => v,
            None => {
                return Err(LendingError::MathOverflow);
            },
        };
        if u256_checked_add(&vault.total_supply, &shares).is_none() {
            return Err(LendingError::MathOverflow);
        }
        let balance = vault.balance_of(caller);
        if u256_checked_add(&balance, &shares).is_none() {
            return Err(LendingError::MathOverflow);
        }
        let new_borrow_rate = match strategy.try_calculate_borrow_rate(
            self.total_borrows,
            new_liquidity,
        ) {
            Ok(v) => v,
            Err(e) => {
                return Err(e);
            },
        };
        let new_supply_rate = match strategy.try_calculate_supply_rate(
            new_borrow_rate,
            self.total_borrows,
            new_liquidity,
            self.reserve_factor,
        ) {
            Ok(v) => v,
            Err(e) => {
                return Err(e);
            },
        };
        let utilization_rate = match strategy.try_calculate_utilization_rate(
            self.total_borrows,
            new_liquidity,
        ) {
            Ok(v) => v,
            Err(_) => unreached(),
        };
        let accrue_event = LendingEvent::InterestAccrued(
            InterestAccrued {
                interest_amount: u256_zero(),
                total_borrows: self.total_borrows,
                timestamp: now,
            },
        );
        match vault.mint(self.pool_address, caller, shares) {
            Ok(()) => (),
            Err(_) => unreached(),
        }
        match vault.update_total_assets(self.pool_address, new_total_assets) {
            Ok(()) => (),
            Err(_) => unreached(),
        }
        self.total_liquidity = new_liquidity;
        self.borrow_rate = new_borrow_rate;
        self.supply_rate = new_supply_rate;
        self.events.push(accrue_event);
        self.events.push(
            LendingEvent::InterestRatesUpdated(
                InterestRatesUpdated {
                    borrow_rate: new_borrow_rate,
                    supply_rate: new_supply_rate,
                    utilization_rate,
                    timestamp: now,
                },
            ),
        );
        self.events.push(
            LendingEvent::Deposited(Deposited { user: caller, amount, shares, timestamp: now }),
        );
        proof {
            assert(self.events@.subrange(0, old(self).events@.len() as int) =~= old(self).events@);
        }
        Ok(shares)
    }

    /// Withdraws base asset: shares at the running exchange rate are
    /// burned from the caller, liquidity shrinks by the amount, the
    /// vault's recorded assets follow the ledger, and the rates are
    /// recomputed; fails with `InsufficientLiquidity` when the pool cannot
    /// pay out.
    pub fn withdraw(
        &mut self,
        vault: &mut AectoVault,
        strategy: &InterestRateStrategy,
        caller: Address,
        now: u64,
        amount: U256,
    ) -> (r: Result<U256, LendingError>)
        requires
            old(self).wf(),
            old(vault).lending_pool == old(self).pool_address,
        ensures
            final(self).wf(),
            r is Err ==> *final(self) == *old(self) && *final(vault) == *old(vault),
            match r {
                Ok(shares) => {
                    let b = u256_as_nat(old(self).total_borrows);
                    let l = u256_as_nat(old(self).total_liquidity);
                    let sup = u256_as_nat(old(vault).total_supply);
                    let ast = u256_as_nat(old(vault).total_assets);
                    let sh = spec_convert_to_shares(sup, ast, u256_as_nat(amount));
                    &&& !old(self).paused
                    &&& u256_as_nat(amount) <= l
                    &&& u256_as_nat(shares) == sh
                    &&& u256_as_nat(final(self).total_liquidity) == l - u256_as_nat(amount)
                    &&& final(self).total_borrows == old(self).total_borrows
                    &&& final(self).total_reserves == old(self).total_reserves
                    &&& final(self).borrow_positions@ == old(self).borrow_positions@
                    &&& final(self).same_admin_config(old(self))
                    &&& u256_as_nat(final(self).borrow_rate) == spec_borrow_rate(
                        strategy.params@,
                        spec_utilization(b, (l - u256_as_nat(amount)) as nat),
                    )
                    &&& u256_as_nat(final(self).supply_rate) == spec_supply_rate(
                        u256_as_nat(final(self).borrow_rate),
                        u256_as_nat(old(self).reserve_factor),
                        spec_utilization(b, (l - u256_as_nat(amount)) as nat),
                    )
                    &&& u256_as_nat(final(vault).total_supply) == sup - sh
                    &&& final(vault).spec_balance_of(caller) == old(vault).spec_balance_of(caller)
                        - sh
                    &&& forall|h: Address|
                        h != caller ==> final(vault).spec_balance_of(h) == old(
                            vault,
                        ).spec_balance_of(h)
                    &&& u256_as_nat(final(vault).total_assets) == l - u256_as_nat(amount) + b
                    &&& final(vault).same_config(old(vault))
                    &&& spec_op_events(
                        old(self).events@,
                        final(self).events@,
                        old(self).total_borrows,
                        final(self).borrow_rate,
                        final(self).supply_rate,
                        spec_utilization(b, (l - u256_as_nat(amount)) as nat),
                        now,
                    )
                    &&& final(self).events@[old(self).events@.len() as int + 2]
                        == LendingEvent::Withdrawn(
                        (Withdrawn { user: caller, amount, shares, timestamp: now }),
                    )
                },
                Err(e) => {
                    let b = u256_as_nat(old(self).total_borrows);
                    let l = u256_as_nat(old(self).total_liquidity);
                    let sup = u256_as_nat(old(vault).total_supply);
                    let ast = u256_as_nat(old(vault).total_assets);
                    let sh = spec_convert_to_shares(sup, ast, u256_as_nat(amount));
                    if old(self).paused {
                        e == LendingError::ContractPaused
                    } else if u256_as_nat(amount) > l {
                        e == LendingError::InsufficientLiquidity
                    } else if !spec_convert_to_shares_fits(sup, ast, u256_as_nat(amount)) {
                        e == LendingError::MathOverflow
                    } else if old(vault).spec_balance_of(caller) < sh {
                        e == LendingError::InsufficientBalance
                    } else if sup < sh {
                        e == LendingError::MathUnderflow
                    } else {
                        e == LendingError::MathOverflow
                    }
                },
            },
            old(self).paused ==> r == Result::<U256, LendingError>::Err(
                LendingError::ContractPaused,
            ),
            r is Ok <==> old(self).spec_withdraw_ok(
                old(vault),
                strategy,
                caller,
                u256_as_nat(amount),
            ),
    {
        if self.paused {
            return Err(LendingError::ContractPaused);
        }
        if u256_lt(&self.total_liquidity, &amount) {
            return Err(LendingError::InsufficientLiquidity);
        }
        let shares: U256;
        if u256_is_zero(&vault.total_supply) || u256_is_zero(&vault.total_assets) {
            shares = amount;
        } else {
            let scaled = match u256_checked_mul(&amount, &vault.total_supply) {
                Some(v) => v,
                None => {
                    return Err(LendingError::MathOverflow);
                },
            };
            shares = u256_div(&scaled, &vault.total_assets);
        }
        let balance = vault.balance_of(caller);
        if u256_lt(&balance, &shares) {
            return Err(LendingError::InsufficientBalance);
        }
        if u256_lt(&vault.total_supply, &shares) {
            return Err(LendingError::MathUnderflow);
        }
        let new_liquidity = u256_sub(&self.total_liquidity, &amount);
        let new_total_assets = match u256_checked_add(&new_liquidity, &self.total_borrows) {
            Some(v) => v,
            None => {
                return Err(LendingError::MathOverflow);
            },
        };
        let new_borrow_rate = match strategy.try_calculate_borrow_rate(
            self.total_borrows,
            new_liquidity,
        ) {
            Ok(v) => v,
            Err(e) => {
                return Err(e);
            },
        };
        let new_supply_rate = match strategy.try_calculate_supply_rate(
            new_borrow_rate,
            self.total_borrows,
            new_liquidity,
            self.reserve_factor,
        ) {
            Ok(v) => v,
            Err(e) => {
                return Err(e);
            },
        };
        let utilization_rate = match strategy.try_calculate_utilization_rate(
            self.total_borrows,
            new_liquidity,
        ) {
            Ok(v) => v,
            Err(_) => unreached(),
        };
        match vault.burn(self.pool_address, caller, shares) {
            Ok(()) => (),
            Err(_) => unreached(),
        }
        match vault.update_total_assets(self.pool_address, new_total_assets) {
            Ok(()) => (),
            Err(_) => unreached(),
        }
        self.total_liquidity = new_liquidity;
        self.borrow_rate = new_borrow_rate;
        self.supply_rate = new_supply_rate;
        self.events.push(
            LendingEvent::InterestAccrued(
                InterestAccrued {
                    interest_amount: u256_zero(),
                    total_borrows: self.total_borrows,
                    timestamp: now,
                },
            ),
        );
        self.events.push(
            LendingEvent::InterestRatesUpdated(
                InterestRatesUpdated {
                    borrow_rate: new_borrow_rate,
                    supply_rate: new_supply_rate,
                    utilization_rate,
                    timestamp: now,
                },
            ),
        );
        self.events.push(
            LendingEvent::Withdrawn(Withdrawn { user: caller, amount, shares, timestamp: now }),
        );
        proof {
            assert(self.events@.subrange(0, old(self).events@.len() as int) =~= old(self).events@);
        }
        Ok(shares)
    }

    /// Why a borrow would fail, if it would, in the order the checks run:
    /// the pause gate, a zero amount, missing pool liquidity, no collateral
    /// of the named asset, an oversized position, the borrow limit, and
    /// the health-factor gate; pricing failures and 256-bit overflows
    /// surface from the valuation they interrupt.
    pub open spec fn spec_borrow_err(
        &self,
        cm: &CollateralManager,
        oracle: &PriceOracle,
        strategy: &InterestRateStrategy,
        caller: Address,
        amount: nat,
        collateral_asset: Address,
        now: u64,
    ) -> Option<LendingError> {
        let b = u256_as_nat(self.total_borrows);
        let l = u256_as_nat(self.total_liquidity);
        if self.paused {
            Some(LendingError::ContractPaused)
        } else if amount == 0 {
            Some(LendingError::ZeroAmount)
        } else if amount > l {
            Some(LendingError::InsufficientLiquidity)
        } else if cm.spec_user_collateral(caller, collateral_asset) == 0 {
            Some(LendingError::InsufficientCollateral)
        } else if self.spec_debt_of(caller) + amount >= two_pow_256() {
            Some(LendingError::MathOverflow)
        } else {
            let new_debt = self.spec_debt_of(caller) + amount;
            match spec_sum_result(
                cm.spec_entries(caller),
                cm.collateral_configs@,
                oracle,
                now,
                CollateralWeighting::Ltv,
                0,
            ) {
                Err(e) => Some(e),
                Ok(max_borrow) => if new_debt > max_borrow {
                    Some(LendingError::ExceedsBorrowLimit)
                } else {
                    match spec_health_factor_result(
                        cm.spec_entries(caller),
                        cm.collateral_configs@,
                        oracle,
                        now,
                        new_debt,
                    ) {
                        Err(e) => Some(e),
                        Ok(hf) => if hf < spec_scale() {
                            Some(LendingError::HealthFactorTooLow)
                        } else if b + amount >= two_pow_256() {
                            Some(LendingError::MathOverflow)
                        } else if !spec_rates_fits(
                            strategy.params@,
                            u256_as_nat(self.reserve_factor),
                            b + amount,
                            (l - amount) as nat,
                        ) {
                            Some(LendingError::MathOverflow)
                        } else {
                            None
                        },
                    }
                },
            }
        }
    }

    /// Borrows base asset against collateral: merges any accrued interest
    /// into the principal, adds the new amount, moves liquidity to
    /// borrows, and recomputes the rates. The call must clear the borrow
    /// limit and leave the health factor at or above one unit.
    pub fn borrow(
        &mut self,
        cm: &CollateralManager,
        oracle: &PriceOracle,
        strategy: &InterestRateStrategy,
        caller: Address,
        now: u64,
        amount: U256,
        collateral_asset: Address,
    ) -> (r: Result<(), LendingError>)
        requires
            old(self).wf(),
            cm.wf(),
        ensures
            final(self).wf(),
            r is Err ==> *final(self) == *old(self),
            match old(self).spec_borrow_err(
                cm,
                oracle,
                strategy,
                caller,
                u256_as_nat(amount),
                collateral_asset,
                now,
            ) {
                Some(e) => r == Result::<(), LendingError>::Err(e),
                None => r is Ok,
            },
            r is Ok ==> {
                let b = u256_as_nat(old(self).total_borrows);
                let l = u256_as_nat(old(self).total_liquidity);
                let new_debt = old(self).spec_debt_of(caller) + u256_as_nat(amount);
                &&& u256_as_nat(final(self).total_borrows) == b + u256_as_nat(amount)
                &&& u256_as_nat(final(self).total_liquidity) == l - u256_as_nat(amount)
                &&& final(self).total_reserves == old(self).total_reserves
                &&& final(self).same_admin_config(old(self))
                &&& final(self).borrow_positions@.contains_key(caller)
                &&& final(self).borrow_positions@[caller].user == caller
                &&& u256_as_nat(final(self).borrow_positions@[caller].principal) == new_debt
                &&& u256_as_nat(final(self).borrow_positions@[caller].interest_accrued) == 0
                &&& final(self).borrow_positions@[caller].last_update == now
                &&& forall|u: Address|
                    u != caller ==> (#[trigger] final(self).borrow_positions@.contains_key(u)
                        == old(self).borrow_positions@.contains_key(u) && (old(self).borrow_positions@.contains_key(u) ==> final(self).borrow_positions@[u]
                        == old(self).borrow_positions@[u]))
                &&& u256_as_nat(final(self).borrow_rate) == spec_borrow_rate(
                    strategy.params@,
                    spec_utilization(b + u256_as_nat(amount), (l - u256_as_nat(amount)) as nat),
                )
                &&& u256_as_nat(final(self).supply_rate) == spec_supply_rate(
                    u256_as_nat(final(self).borrow_rate),
                    u256_as_nat(old(self).reserve_factor),
                    spec_utilization(b + u256_as_nat(amount), (l - u256_as_nat(amount)) as nat),
                )
                &&& spec_op_events(
                    old(self).events@,
                    final(self).events@,
                    old(self).total_borrows,
                    final(self).borrow_rate,
                    final(self).supply_rate,
                    spec_utilization(b + u256_as_nat(amount), (l - u256_as_nat(amount)) as nat),
                    now,
                )
                &&& final(self).events@[old(self).events@.len() as int + 2]
                    == LendingEvent::Borrowed(
                    (Borrowed {
                        borrower: caller,
                        amount,
                        collateral_asset,
                        borrow_rate: final(self).borrow_rate,
                        timestamp: now,
                    }),
                )
            },
    {
        if self.paused {
            return Err(LendingError::ContractPaused);
        }
        if u256_is_zero(&amount) {
            return Err(LendingError::ZeroAmount);
        }
        if u256_lt(&self.total_liquidity, &amount) {
            return Err(LendingError::InsufficientLiquidity);
        }
        let user_collateral = cm.get_user_collateral(caller, collateral_asset);
        if u256_is_zero(&user_collateral) {
            return Err(LendingError::InsufficientCollateral);
        }
        let current_debt: U256;
        match self.borrow_positions.get(&caller) {
            Some(pos) => {
                current_debt = match u256_checked_add(&pos.principal, &pos.interest_accrued) {
                    Some(v) => v,
                    None => {
                        return Err(LendingError::MathOverflow);
                    },
                };
            },
            None => {
                current_debt = u256_zero();
            },
        }
        let new_debt = match u256_checked_add(&current_debt, &amount) {
            Some(v) => v,
            None => {
                return Err(LendingError::MathOverflow);
            },
        };
        let max_borrow = match cm.get_max_borrow_amount(caller, oracle, now) {
            Ok(v) => v,
            Err(e) => {
                return Err(e);
            },
        };
        if u256_lt(&max_borrow, &new_debt) {
            return Err(LendingError::ExceedsBorrowLimit);
        }
        let health_factor = match cm.calculate_health_factor(caller, new_debt, oracle, now) {
            Ok(v) => v,
            Err(e) => {
                return Err(e);
            },
        };
        let scale = scale_u256();
        if u256_lt(&health_factor, &scale) {
            return Err(LendingError::HealthFactorTooLow);
        }
        let new_borrows = match u256_checked_add(&self.total_borrows, &amount) {
            Some(v) => v,
            None => {
                return Err(LendingError::MathOverflow);
            },
        };
        let new_liquidity = u256_sub(&self.total_liquidity, &amount);
        let new_borrow_rate = match strategy.try_calculate_borrow_rate(
            new_borrows,
            new_liquidity,
        ) {
            Ok(v) => v,
            Err(e) => {
                return Err(e);
            },
        };
        let new_supply_rate = match strategy.try_calculate_supply_rate(
            new_borrow_rate,
            new_borrows,
            new_liquidity,
            self.reserve_factor,
        ) {
            Ok(v) => v,
            Err(e) => {
                return Err(e);
            },
        };
        let utilization_rate = match strategy.try_calculate_utilization_rate(
            new_borrows,
            new_liquidity,
        ) {
            Ok(v) => v,
            Err(_) => unreached(),
        };
        let new_position = BorrowPosition {
            user: caller,
            principal: new_debt,
            interest_accrued: u256_zero(),
            last_update: now,
        };
        let borrows_before = self.total_borrows;
        self.borrow_positions.insert(caller, new_position);
        self.total_borrows = new_borrows;
        self.total_liquidity = new_liquidity;
        self.borrow_rate = new_borrow_rate;
        self.supply_rate = new_supply_rate;
        self.events.push(
            LendingEvent::InterestAccrued(
                InterestAccrued {
                    interest_amount: u256_zero(),
                    total_borrows: borrows_before,
                    timestamp: now,
                },
            ),
        );
        self.events.push(
            LendingEvent::InterestRatesUpdated(
                InterestRatesUpdated {
                    borrow_rate: new_borrow_rate,
                    supply_rate: new_supply_rate,
                    utilization_rate,
                    timestamp: now,
                },
            ),
        );
        self.events.push(
            LendingEvent::Borrowed(
                Borrowed {
                    borrower: caller,
                    amount,
                    collateral_asset,
                    borrow_rate: new_borrow_rate,
                    timestamp: now,
                },
            ),
        );
        proof {
            assert(self.events@.subrange(0, old(self).events@.len() as int) =~= old(self).events@);
        }
        Ok(())
    }

    /// Why a repayment would fail, if it would, in the order the checks
    /// run: the pause gate, a zero amount, a missing position, then the
    /// ledger arithmetic.
    pub open spec fn spec_repay_err(
        &self,
        strategy: &InterestRateStrategy,
        caller: Address,
        amount: nat,
    ) -> Option<LendingError> {
        let b = u256_as_nat(self.total_borrows);
        let l = u256_as_nat(self.total_liquidity);
        let rf = u256_as_nat(self.reserve_factor);
        let res = u256_as_nat(self.total_reserves);
        if self.paused {
            Some(LendingError::ContractPaused)
        } else if amount == 0 {
            Some(LendingError::ZeroAmount)
        } else if !self.borrow_positions@.contains_key(caller) {
            Some(LendingError::NoBorrowPosition)
        } else {
            let i = u256_as_nat(self.borrow_positions@[caller].interest_accrued);
            let debt = self.spec_debt_of(caller);
            if debt >= two_pow_256() {
                Some(LendingError::MathOverflow)
            } else {
                let repay = if amount > debt {
                    debt
                } else {
                    amount
                };
                let interest_paid = if repay >= i {
                    i
                } else {
                    repay
                };
                if repay > b {
                    Some(LendingError::MathUnderflow)
                } else if l + repay >= two_pow_256() {
                    Some(LendingError::MathOverflow)
                } else if interest_paid * rf >= two_pow_256() {
                    Some(LendingError::MathOverflow)
                } else if res + (interest_paid * rf) / spec_scale() >= two_pow_256() {
                    Some(LendingError::MathOverflow)
                } else if !spec_rates_fits(
                    strategy.params@,
                    rf,
                    (b - repay) as nat,
                    l + repay,
                ) {
                    Some(LendingError::MathOverflow)
                } else {
                    None
                }
            }
        }
    }

    /// Repays borrowed base asset: the repayment is capped at the
    /// outstanding debt, interest is settled before principal, the
    /// reserve-factor share of the repaid interest is credited to the
    /// reserves, the covered amount moves from borrows back to liquidity,
    /// and a fully repaid position is zeroed, not removed.
    pub fn repay(
        &mut self,
        strategy: &InterestRateStrategy,
        caller: Address,
        now: u64,
        amount: U256,
    ) -> (r: Result<(), LendingError>)
        requires
            old(self).wf(),
        ensures
            final(self).wf(),
            r is Err ==> *final(self) == *old(self),
            match old(self).spec_repay_err(strategy, caller, u256_as_nat(amount)) {
                Some(e) => r == Result::<(), LendingError>::Err(e),
                None => r is Ok,
            },
            r is Ok ==> {
                let b = u256_as_nat(old(self).total_borrows);
                let l = u256_as_nat(old(self).total_liquidity);
                let rf = u256_as_nat(old(self).reserve_factor);
                let p = u256_as_nat(old(self).borrow_positions@[caller].principal);
                let i = u256_as_nat(old(self).borrow_positions@[caller].interest_accrued);
                let debt = p + i;
                let repay = if u256_as_nat(amount) > debt {
                    debt
                } else {
                    u256_as_nat(amount)
                };
                let interest_paid = if repay >= i {
                    i
                } else {
                    repay
                };
                let principal_paid = (repay - interest_paid) as nat;
                &&& u256_as_nat(final(self).total_borrows) == b - repay
                &&& u256_as_nat(final(self).total_liquidity) == l + repay
                &&& u256_as_nat(final(self).total_reserves) == u256_as_nat(
                    old(self).total_reserves,
                ) + (interest_paid * rf) / spec_scale()
                &&& final(self).same_admin_config(old(self))
                &&& final(self).borrow_positions@.contains_key(caller)
                &&& final(self).borrow_positions@[caller].user == caller
                &&& u256_as_nat(final(self).borrow_positions@[caller].principal) == p
                    - principal_paid
                &&& u256_as_nat(final(self).borrow_positions@[caller].interest_accrued) == i
                    - interest_paid
                &&& final(self).borrow_positions@[caller].last_update == now
                &&& (u256_as_nat(amount) >= debt ==> u256_as_nat(
                    final(self).borrow_positions@[caller].principal,
                ) == 0 && u256_as_nat(final(self).borrow_positions@[caller].interest_accrued)
                    == 0)
                &&& forall|u: Address|
                    u != caller ==> (#[trigger] final(self).borrow_positions@.contains_key(u)
                        == old(self).borrow_positions@.contains_key(u) && (old(self).borrow_positions@.contains_key(u) ==> final(self).borrow_positions@[u]
                        == old(self).borrow_positions@[u]))
                &&& u256_as_nat(final(self).borrow_rate) == spec_borrow_rate(
                    strategy.params@,
                    spec_utilization((b - repay) as nat, l + repay),
                )
                &&& u256_as_nat(final(self).supply_rate) == spec_supply_rate(
                    u256_as_nat(final(self).borrow_rate),
                    rf,
                    spec_utilization((b - repay) as nat, l + repay),
                )
                &&& spec_op_events(
                    old(self).events@,
                    final(self).events@,
                    old(self).total_borrows,
                    final(self).borrow_rate,
                    final(self).supply_rate,
                    spec_utilization((b - repay) as nat, l + repay),
                    now,
                )
                &&& (final(self).events@[old(self).events@.len() as int + 2]
                    matches LendingEvent::Repaid(a) && a.borrower == caller && u256_as_nat(
                    a.amount,
                ) == repay && u256_as_nat(a.interest) == interest_paid && a.timestamp == now)
            },
    {
        if self.paused {
            return Err(LendingError::ContractPaused);
        }
        if u256_is_zero(&amount) {
            return Err(LendingError::ZeroAmount);
        }
        let position = match self.borrow_positions.get(&caller) {
            Some(p) => *p,
            None => {
                return Err(LendingError::NoBorrowPosition);
            },
        };
        let total_debt = match u256_checked_add(&position.principal, &position.interest_accrued) {
            Some(v) => v,
            None => {
                return Err(LendingError::MathOverflow);
            },
        };
        let repay_amount = if u256_lt(&total_debt, &amount) {
            total_debt
        } else {
            amount
        };
        let interest_paid = if u256_le(&position.interest_accrued, &repay_amount) {
            position.interest_accrued
        } else {
            repay_amount
        };
        let principal_paid = u256_sub(&repay_amount, &interest_paid);
        let new_borrows = match crate::num::u256_checked_sub(&self.total_borrows, &repay_amount) {
            Some(v) => v,
            None => {
                return Err(LendingError::MathUnderflow);
            },
        };
        let new_liquidity = match u256_checked_add(&self.total_liquidity, &repay_amount) {
            Some(v) => v,
            None => {
                return Err(LendingError::MathOverflow);
            },
        };
        let scale = scale_u256();
        let scaled_interest = match u256_checked_mul(&interest_paid, &self.reserve_factor) {
            Some(v) => v,
            None => {
                return Err(LendingError::MathOverflow);
            },
        };
        let reserves_added = u256_div(&scaled_interest, &scale);
        let new_reserves = match u256_checked_add(&self.total_reserves, &reserves_added) {
            Some(v) => v,
            None => {
                return Err(LendingError::MathOverflow);
            },
        };
        let new_borrow_rate = match strategy.try_calculate_borrow_rate(
            new_borrows,
            new_liquidity,
        ) {
            Ok(v) => v,
            Err(e) => {
                return Err(e);
            },
        };
        let new_supply_rate = match strategy.try_calculate_supply_rate(
            new_borrow_rate,
            new_borrows,
            new_liquidity,
            self.reserve_factor,
        ) {
            Ok(v) => v,
            Err(e) => {
                return Err(e);
            },
        };
        let utilization_rate = match strategy.try_calculate_utilization_rate(
            new_borrows,
            new_liquidity,
        ) {
            Ok(v) => v,
            Err(_) => unreached(),
        };
        let new_position = BorrowPosition {
            user: caller,
            principal: u256_sub(&position.principal, &principal_paid),
            interest_accrued: u256_sub(&position.interest_accrued, &interest_paid),
            last_update: now,
        };
        let borrows_before = self.total_borrows;
        self.borrow_positions.insert(caller, new_position);
        self.total_borrows = new_borrows;
        self.total_liquidity = new_liquidity;
        self.total_reserves = new_reserves;
        self.borrow_rate = new_borrow_rate;
        self.supply_rate = new_supply_rate;
        self.events.push(
            LendingEvent::InterestAccrued(
                InterestAccrued {
                    interest_amount: u256_zero(),
                    total_borrows: borrows_before,
                    timestamp: now,
                },
            ),
        );
        self.events.push(
            LendingEvent::InterestRatesUpdated(
                InterestRatesUpdated {
                    borrow_rate: new_borrow_rate,
                    supply_rate: new_supply_rate,
                    utilization_rate,
                    timestamp: now,
                },
            ),
        );
        self.events.push(
            LendingEvent::Repaid(
                Repaid { borrower: caller, amount: repay_amount, interest: interest_paid,
                    timestamp: now },
            ),
        );
        proof {
            assert(self.events@.subrange(0, old(self).events@.len() as int) =~= old(self).events@);
        }
        Ok(())
    }

    /// Why a liquidation would fail, if it would, in the order the checks
    /// run: the pause gate, a missing or empty position, the health gate,
    /// the collateral configuration, the valuation of the seized
    /// collateral, the close-factor and bonus arithmetic, and the ledger
    /// arithmetic.
    pub open spec fn spec_liquidate_err(
        &self,
        cm: &CollateralManager,
        oracle: &PriceOracle,
        engine: &LiquidationEngine,
        strategy: &InterestRateStrategy,
        borrower: Address,
        debt_to_cover: nat,
        collateral_asset: Address,
        now: u64,
    ) -> Option<LendingError> {
        let b = u256_as_nat(self.total_borrows);
        let l = u256_as_nat(self.total_liquidity);
        let rf = u256_as_nat(self.reserve_factor);
        if self.paused {
            Some(LendingError::ContractPaused)
        } else if !self.borrow_positions@.contains_key(borrower) {
            Some(LendingError::NoBorrowPosition)
        } else if self.spec_debt_of(borrower) >= two_pow_256() {
            Some(LendingError::MathOverflow)
        } else if self.spec_debt_of(borrower) == 0 {
            Some(LendingError::NoBorrowPosition)
        } else {
            let p = u256_as_nat(self.borrow_positions@[borrower].principal);
            let debt = self.spec_debt_of(borrower);
            match spec_health_factor_result(
                cm.spec_entries(borrower),
                cm.collateral_configs@,
                oracle,
                now,
                debt,
            ) {
                Err(e) => Some(e),
                Ok(hf) => if hf >= spec_scale() {
                    Some(LendingError::PositionHealthy)
                } else if !cm.collateral_configs@.contains_key(collateral_asset) {
                    Some(LendingError::UnsupportedCollateral)
                } else {
                    let bonus = u256_as_nat(
                        cm.collateral_configs@[collateral_asset].liquidation_bonus,
                    );
                    let bc = cm.spec_user_collateral(borrower, collateral_asset);
                    match oracle.spec_get_price_err(collateral_asset, now) {
                        Some(e) => Some(e),
                        None => if bc * oracle.spec_price(collateral_asset) >= two_pow_256() {
                            Some(LendingError::MathOverflow)
                        } else {
                            let cv = oracle.spec_asset_value(collateral_asset, bc);
                            let cf = engine.params@.max_liquidation_close_factor;
                            if !spec_liquidation_fits(debt_to_cover, debt, cf, bonus) {
                                Some(LendingError::MathOverflow)
                            } else {
                                let actual = spec_actual_debt(debt_to_cover, debt, cf);
                                let seize = spec_collateral_to_seize(actual, bonus);
                                if seize > cv {
                                    Some(LendingError::InsufficientCollateralForLiquidation)
                                } else if debt - actual != 0 && p * actual >= two_pow_256() {
                                    Some(LendingError::MathOverflow)
                                } else if seize * spec_scale() >= two_pow_256() {
                                    Some(LendingError::MathOverflow)
                                } else if actual > b {
                                    Some(LendingError::MathUnderflow)
                                } else if l + actual >= two_pow_256() {
                                    Some(LendingError::MathOverflow)
                                } else if !spec_rates_fits(
                                    strategy.params@,
                                    rf,
                                    (b - actual) as nat,
                                    l + actual,
                                ) {
                                    Some(LendingError::MathOverflow)
                                } else {
                                    None
                                }
                            }
                        },
                    }
                },
            }
        }
    }

    /// Liquidates an undercollateralized position: the covered debt is
    /// capped by the close factor, the borrower's principal and interest
    /// shrink proportionally, and the covered amount moves from borrows
    /// back to liquidity. The seized collateral and the bonus are computed
    /// and recorded in the event; moving the seized collateral itself out
    /// of the borrower's holdings is left to a follow-up claim outside
    /// this ledger.
    pub fn liquidate(
        &mut self,
        cm: &CollateralManager,
        oracle: &PriceOracle,
        engine: &LiquidationEngine,
        strategy: &InterestRateStrategy,
        liquidator: Address,
        now: u64,
        borrower: Address,
        debt_to_cover: U256,
        collateral_asset: Address,
    ) -> (r: Result<(), LendingError>)
        requires
            old(self).wf(),
            cm.wf(),
            oracle.wf(),
            engine.wf(),
        ensures
            final(self).wf(),
            r is Err ==> *final(self) == *old(self),
            match old(self).spec_liquidate_err(
                cm,
                oracle,
                engine,
                strategy,
                borrower,
                u256_as_nat(debt_to_cover),
                collateral_asset,
                now,
            ) {
                Some(e) => r == Result::<(), LendingError>::Err(e),
                None => r is Ok,
            },
            r is Ok ==> {
                let b = u256_as_nat(old(self).total_borrows);
                let l = u256_as_nat(old(self).total_liquidity);
                let p = u256_as_nat(old(self).borrow_positions@[borrower].principal);
                let i = u256_as_nat(old(self).borrow_positions@[borrower].interest_accrued);
                let debt = p + i;
                let bonus = u256_as_nat(
                    cm.collateral_configs@[collateral_asset].liquidation_bonus,
                );
                let actual = spec_actual_debt(
                    u256_as_nat(debt_to_cover),
                    debt,
                    engine.params@.max_liquidation_close_factor,
                );
                let seize = spec_collateral_to_seize(actual, bonus);
                let covered = (p * actual) / debt;
                &&& u256_as_nat(final(self).total_borrows) == b - actual
                &&& u256_as_nat(final(self).total_liquidity) == l + actual
                &&& final(self).total_reserves == old(self).total_reserves
                &&& final(self).same_admin_config(old(self))
                &&& final(self).borrow_positions@.contains_key(borrower)
                &&& final(self).borrow_positions@[borrower].user == borrower
                &&& final(self).borrow_positions@[borrower].last_update == now
                &&& (debt - actual == 0 ==> u256_as_nat(
                    final(self).borrow_positions@[borrower].principal,
                ) == 0 && u256_as_nat(final(self).borrow_positions@[borrower].interest_accrued)
                    == 0)
                &&& (debt - actual != 0 ==> u256_as_nat(
                    final(self).borrow_positions@[borrower].principal,
                ) == p - covered && u256_as_nat(
                    final(self).borrow_positions@[borrower].interest_accrued,
                ) == i - ((actual - covered) as nat))
                &&& forall|u: Address|
                    u != borrower ==> (#[trigger] final(self).borrow_positions@.contains_key(u)
                        == old(self).borrow_positions@.contains_key(u) && (old(self).borrow_positions@.contains_key(u) ==> final(self).borrow_positions@[u]
                        == old(self).borrow_positions@[u]))
                &&& u256_as_nat(final(self).borrow_rate) == spec_borrow_rate(
                    strategy.params@,
                    spec_utilization((b - actual) as nat, l + actual),
                )
                &&& u256_as_nat(final(self).supply_rate) == spec_supply_rate(
                    u256_as_nat(final(self).borrow_rate),
                    u256_as_nat(old(self).reserve_factor),
                    spec_utilization((b - actual) as nat, l + actual),
                )
                &&& spec_op_events(
                    old(self).events@,
                    final(self).events@,
                    old(self).total_borrows,
                    final(self).borrow_rate,
                    final(self).supply_rate,
                    spec_utilization((b - actual) as nat, l + actual),
                    now,
                )
                &&& (final(self).events@[old(self).events@.len() as int + 2]
                    matches LendingEvent::Liquidated(a) && a.borrower == borrower && a.liquidator
                    == liquidator && a.collateral_asset == collateral_asset && u256_as_nat(
                    a.debt_covered,
                ) == actual && u256_as_nat(a.collateral_seized) == oracle.spec_asset_amount(
                    collateral_asset,
                    seize,
                ) && u256_as_nat(a.liquidation_bonus) == seize - actual && a.timestamp == now)
            },
    {
        if self.paused {
            return Err(LendingError::ContractPaused);
        }
        let position = match self.borrow_positions.get(&borrower) {
            Some(p) => *p,
            None => {
                return Err(LendingError::NoBorrowPosition);
            },
        };
        let total_debt = match u256_checked_add(&position.principal, &position.interest_accrued) {
            Some(v) => v,
            None => {
                return Err(LendingError::MathOverflow);
            },
        };
        if u256_is_zero(&total_debt) {
            return Err(LendingError::NoBorrowPosition);
        }
        let liquidatable = match cm.can_liquidate(borrower, total_debt, oracle, now) {
            Ok(v) => v,
            Err(e) => {
                return Err(e);
            },
        };
        if !liquidatable {
            return Err(LendingError::PositionHealthy);
        }
        let collateral_config = match cm.get_collateral_config(collateral_asset) {
            Ok(c) => c,
            Err(e) => {
                return Err(e);
            },
        };
        let borrower_collateral = cm.get_user_collateral(borrower, collateral_asset);
        let collateral_value = match oracle.get_asset_value(
            collateral_asset,
            borrower_collateral,
            now,
        ) {
            Ok(v) => v,
            Err(e) => {
                return Err(e);
            },
        };
        let amounts = match engine.calculate_liquidation_amounts(
            debt_to_cover,
            total_debt,
            collateral_value,
            collateral_config.liquidation_bonus,
        ) {
            Ok(v) => v,
            Err(e) => {
                return Err(e);
            },
        };
        let actual_debt_covered = amounts.0;
        let collateral_to_seize = amounts.1;
        proof {
            lemma_actual_le_debt(
                u256_as_nat(debt_to_cover),
                u256_as_nat(total_debt),
                engine.params@.max_liquidation_close_factor,
            );
        }
        let new_debt = u256_sub(&total_debt, &actual_debt_covered);
        let new_position: BorrowPosition;
        if u256_is_zero(&new_debt) {
            new_position = BorrowPosition {
                user: borrower,
                principal: u256_zero(),
                interest_accrued: u256_zero(),
                last_update: now,
            };
        } else {
            let scaled = match u256_checked_mul(&position.principal, &actual_debt_covered) {
                Some(v) => v,
                None => {
                    return Err(LendingError::MathOverflow);
                },
            };
            let principal_covered = u256_div(&scaled, &total_debt);
            proof {
                lemma_proportional_split(
                    u256_as_nat(position.principal),
                    u256_as_nat(position.interest_accrued),
                    u256_as_nat(actual_debt_covered),
                );
            }
            let interest_covered = u256_sub(&actual_debt_covered, &principal_covered);
            new_position = BorrowPosition {
                user: borrower,
                principal: u256_sub(&position.principal, &principal_covered),
                interest_accrued: u256_sub(&position.interest_accrued, &interest_covered),
                last_update: now,
            };
        }
        let collateral_amount_in_tokens = match oracle.get_asset_amount(
            collateral_asset,
            collateral_to_seize,
            now,
        ) {
            Ok(v) => v,
            Err(e) => {
                return Err(e);
            },
        };
        let new_borrows = match crate::num::u256_checked_sub(
            &self.total_borrows,
            &actual_debt_covered,
        ) {
            Some(v) => v,
            None => {
                return Err(LendingError::MathUnderflow);
            },
        };
        let new_liquidity = match u256_checked_add(&self.total_liquidity, &actual_debt_covered) {
            Some(v) => v,
            None => {
                return Err(LendingError::MathOverflow);
            },
        };
        let new_borrow_rate = match strategy.try_calculate_borrow_rate(
            new_borrows,
            new_liquidity,
        ) {
            Ok(v) => v,
            Err(e) => {
                return Err(e);
            },
        };
        let new_supply_rate = match strategy.try_calculate_supply_rate(
            new_borrow_rate,
            new_borrows,
            new_liquidity,
            self.reserve_factor,
        ) {
            Ok(v) => v,
            Err(e) => {
                return Err(e);
            },
        };
        let utilization_rate = match strategy.try_calculate_utilization_rate(
            new_borrows,
            new_liquidity,
        ) {
            Ok(v) => v,
            Err(_) => unreached(),
        };
        proof {
            lemma_seize_ge_actual(
                u256_as_nat(actual_debt_covered),
                u256_as_nat(collateral_config.liquidation_bonus),
            );
        }
        let liquidation_bonus = u256_sub(&collateral_to_seize, &actual_debt_covered);
        let borrows_before = self.total_borrows;
        self.borrow_positions.insert(borrower, new_position);
        self.total_borrows = new_borrows;
        self.total_liquidity = new_liquidity;
        self.borrow_rate = new_borrow_rate;
        self.supply_rate = new_supply_rate;
        self.events.push(
            LendingEvent::InterestAccrued(
                InterestAccrued {
                    interest_amount: u256_zero(),
                    total_borrows: borrows_before,
                    timestamp: now,
                },
            ),
        );
        self.events.push(
            LendingEvent::InterestRatesUpdated(
                InterestRatesUpdated {
                    borrow_rate: new_borrow_rate,
                    supply_rate: new_supply_rate,
                    utilization_rate,
                    timestamp: now,
                },
            ),
        );
        self.events.push(
            LendingEvent::Liquidated(
                Liquidated {
                    borrower,
                    liquidator,
                    collateral_asset,
                    debt_covered: actual_debt_covered,
                    collateral_seized: collateral_amount_in_tokens,
                    liquidation_bonus,
                    timestamp: now,
                },
            ),
        );
        proof {
            assert(self.events@.subrange(0, old(self).events@.len() as int) =~= old(self).events@);
        }
        Ok(())
    }

    /// A user's borrow position, if one was ever created.
    pub fn get_borrow_position(&self, user: Address) -> (r: Option<BorrowPosition>)
        ensures
            match r {
                Some(p) => self.borrow_positions@.contains_key(user) && p
                    == self.borrow_positions@[user],
                None => !self.borrow_positions@.contains_key(user),
            },
    {
        match self.borrow_positions.get(&user) {
            Some(p) => Some(*p),
            None => None,
        }
    }

    /// Principal plus accrued interest lent out.
    pub fn get_total_borrows(&self) -> (r: U256)
        ensures
            u256_as_nat(r) == u256_as_nat(self.total_borrows),
    {
        self.total_borrows
    }

    /// Base asset available in the pool.
    pub fn get_total_liquidity(&self) -> (r: U256)
        ensures
            u256_as_nat(r) == u256_as_nat(self.total_liquidity),
    {
        self.total_liquidity
    }

    /// The current annual borrow rate.
    pub fn get_borrow_rate(&self) -> (r: U256)
        ensures
            u256_as_nat(r) == u256_as_nat(self.borrow_rate),
    {
        self.borrow_rate
    }

    /// The current annual supply rate.
    pub fn get_supply_rate(&self) -> (r: U256)
        ensures
            u256_as_nat(r) == u256_as_nat(self.supply_rate),
    {
        self.supply_rate
    }

    /// The current utilization of the pool.
    pub fn get_utilization_rate(&self) -> (r: U256)
        requires
            spec_utilization_fits(
                u256_as_nat(self.total_borrows),
                u256_as_nat(self.total_liquidity),
            ),
        ensures
            u256_as_nat(r) == spec_utilization(
                u256_as_nat(self.total_borrows),
                u256_as_nat(self.total_liquidity),
            ),
    {
        if u256_is_zero(&self.total_borrows) {
            return u256_zero();
        }
        let total = crate::num::u256_add(&self.total_borrows, &self.total_liquidity);
        if u256_is_zero(&total) {
            return u256_zero();
        }
        let scale = scale_u256();
        let scaled = crate::num::u256_mul(&self.total_borrows, &scale);
        u256_div(&scaled, &total)
    }

    /// Pauses every mutating entry point; only the admin may.
    pub fn pause(&mut self, caller: Address, now: u64) -> (r: Result<(), LendingError>)
        requires
            old(self).wf(),
        ensures
            final(self).wf(),
            match r {
                Ok(()) => caller == old(self).admin && final(self).paused && final(self).admin
                    == old(self).admin && final(self).pool_address == old(self).pool_address
                    && final(self).reserve_factor == old(self).reserve_factor && final(self).borrow_positions@ == old(self).borrow_positions@ && final(self).total_borrows
                    == old(self).total_borrows && final(self).total_liquidity == old(self).total_liquidity && final(self).total_reserves == old(self).total_reserves
                    && final(self).borrow_rate == old(self).borrow_rate && final(self).supply_rate
                    == old(self).supply_rate && final(self).events@ == old(self).events@.push(
                    LendingEvent::ContractPaused(
                        (ContractPaused { paused_by: old(self).admin, timestamp: now }),
                    ),
                ),
                Err(e) => *final(self) == *old(self) && e == LendingError::Unauthorized && caller
                    != old(self).admin,
            },
            r is Ok <==> caller == old(self).admin,
    {
        if caller != self.admin {
            return Err(LendingError::Unauthorized);
        }
        self.paused = true;
        let event = LendingEvent::ContractPaused(
            ContractPaused { paused_by: self.admin, timestamp: now },
        );
        self.events.push(event);
        Ok(())
    }

    /// Unpauses the pool; only the admin may.
    pub fn unpause(&mut self, caller: Address, now: u64) -> (r: Result<(), LendingError>)
        requires
            old(self).wf(),
        ensures
            final(self).wf(),
            match r {
                Ok(()) => caller == old(self).admin && !final(self).paused && final(self).admin
                    == old(self).admin && final(self).pool_address == old(self).pool_address
                    && final(self).reserve_factor == old(self).reserve_factor && final(self).borrow_positions@ == old(self).borrow_positions@ && final(self).total_borrows
                    == old(self).total_borrows && final(self).total_liquidity == old(self).total_liquidity && final(self).total_reserves == old(self).total_reserves
                    && final(self).borrow_rate == old(self).borrow_rate && final(self).supply_rate
                    == old(self).supply_rate && final(self).events@ == old(self).events@.push(
                    LendingEvent::ContractUnpaused(
                        (ContractUnpaused { unpaused_by: old(self).admin, timestamp: now }),
                    ),
                ),
                Err(e) => *final(self) == *old(self) && e == LendingError::Unauthorized && caller
                    != old(self).admin,
            },
            r is Ok <==> caller == old(self).admin,
    {
        if caller != self.admin {
            return Err(LendingError::Unauthorized);
        }
        self.paused = false;
        let event = LendingEvent::ContractUnpaused(
            ContractUnpaused { unpaused_by: self.admin, timestamp: now },
        );
        self.events.push(event);
        Ok(())
    }

    /// Replaces the reserve factor; only the admin may, and it may not
    /// exceed one unit.
    pub fn set_reserve_factor(&mut self, caller: Address, new_factor: U256) -> (r: Result<
        (),
        LendingError,
    >)
        requires
            old(self).wf(),
        ensures
            final(self).wf(),
            match r {
                Ok(()) => caller == old(self).admin && u256_as_nat(new_factor) <= spec_scale()
                    && final(self).reserve_factor == new_factor && final(self).admin == old(self).admin && final(self).paused == old(self).paused && final(self).pool_address
                    == old(self).pool_address && final(self).borrow_positions@ == old(self).borrow_positions@ && final(self).total_borrows == old(self).total_borrows
                    && final(self).total_liquidity == old(self).total_liquidity && final(self).total_reserves == old(self).total_reserves && final(self).borrow_rate == old(self).borrow_rate && final(self).supply_rate == old(self).supply_rate && final(self).events@ == old(self).events@.push(
                    LendingEvent::ReserveFactorUpdated(
                        (ReserveFactorUpdated {
                            old_factor: old(self).reserve_factor,
                            new_factor,
                            updated_by: old(self).admin,
                        }),
                    ),
                ),
                Err(e) => *final(self) == *old(self) && ((e == LendingError::Unauthorized && caller
                    != old(self).admin) || (e == LendingError::InvalidConfiguration && caller
                    == old(self).admin && u256_as_nat(new_factor) > spec_scale())),
            },
            r is Ok <==> (caller == old(self).admin && u256_as_nat(new_factor) <= spec_scale()),
    {
        if caller != self.admin {
            return Err(LendingError::Unauthorized);
        }
        let scale = scale_u256();
        if !u256_le(&new_factor, &scale) {
            return Err(LendingError::InvalidConfiguration);
        }
        let old_factor = self.reserve_factor;
        self.reserve_factor = new_factor;
        let event = LendingEvent::ReserveFactorUpdated(
            ReserveFactorUpdated { old_factor, new_factor, updated_by: self.admin },
        );
        self.events.push(event);
        Ok(())
    }
}

} // verus!
