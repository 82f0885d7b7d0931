//! Per-user collateral accounting: risk parameters per asset, deposits and
//! health-checked withdrawals, and the valuation sums behind the health
//! factor and the borrowing power.

use vstd::prelude::*;
use vstd::arithmetic::div_mod::{
    lemma_div_is_ordered, lemma_div_is_ordered_by_denominator, lemma_fundamental_div_mod,
};
use vstd::arithmetic::mul::lemma_mul_inequality;
use vstd::pervasive::VecAdditionalExecFns;
use vstd::pervasive::unreached;
use std::collections::HashMap;
use casper_types::U256;
use crate::Address;
use crate::errors::LendingError;
use crate::events::{
    CollateralAdded, CollateralDeposited, CollateralUpdated, CollateralWithdrawn, LendingEvent,
};
use crate::num::{
    two_pow_256, u256_as_nat, u256_checked_add, u256_checked_mul, u256_div, u256_is_zero,
    u256_le, u256_lt, u256_max_value, u256_sub, u256_zero,
};
use crate::price_oracle::PriceOracle;
use crate::{scale_u256, spec_scale};

verus! {

broadcast use crate::num::lemma_u256_as_nat_bound, vstd::std_specs::hash::group_hash_axioms;

/// Risk parameters of one collateral asset, ratios scaled by `10^18`.
#[derive(Clone, Copy, Debug, PartialEq)]
pub struct CollateralConfig {
    pub asset: Address,
    /// Largest borrowable fraction of the asset's value.
    pub ltv: U256,
    /// Fraction of the value counted toward solvency.
    pub liquidation_threshold: U256,
    /// Extra fraction a liquidator receives.
    pub liquidation_bonus: U256,
    /// Whether new deposits of the asset are accepted.
    pub is_enabled: bool,
}

/// One collateral holding of a user: an asset and the amount deposited.
#[derive(Clone, Copy, Debug, PartialEq)]
pub struct CollateralPosition {
    pub asset: Address,
    pub amount: U256,
}

/// Which risk ratio weights an asset's value in a sum over a user's
/// collateral.
#[derive(Clone, Copy, Debug)]
pub enum CollateralWeighting {
    /// Weight by the liquidation threshold, for the health factor.
    LiquidationThreshold,
    /// Weight by the loan-to-value ratio, for the borrowing power.
    Ltv,
    /// No weight: the plain value.
    Unweighted,
}

/// A valid per-asset configuration: stored under its own asset key, with
/// `ltv <= liquidation_threshold <= scale`.
pub open spec fn spec_config_wf(c: CollateralConfig, a: Address) -> bool {
    c.asset == a && u256_as_nat(c.ltv) <= u256_as_nat(c.liquidation_threshold) && u256_as_nat(
        c.liquidation_threshold,
    ) <= spec_scale()
}

/// A valid holdings list: every asset configured, and no asset listed
/// twice.
pub open spec fn spec_entries_wf(
    entries: Seq<CollateralPosition>,
    configs: Map<Address, CollateralConfig>,
) -> bool {
    (forall|i: int|
        0 <= i < entries.len() ==> configs.contains_key(#[trigger] entries[i].asset)) && (forall|
        i: int,
        j: int,
    |
        0 <= i < j < entries.len() ==> entries[i].asset != entries[j].asset)
}

/// The position of an asset in a holdings list, `-1` if absent.
pub open spec fn spec_asset_index(entries: Seq<CollateralPosition>, asset: Address) -> int
    decreases entries.len(),
{
    if entries.len() == 0 {
        -1
    } else if entries[0].asset == asset {
        0
    } else {
        let rest = spec_asset_index(entries.drop_first(), asset);
        if rest == -1 {
            -1
        } else {
            rest + 1
        }
    }
}

/// The index found is in range, names the asset, and nothing before it
/// does; `-1` means no entry names it.
pub proof fn lemma_asset_index_props(entries: Seq<CollateralPosition>, asset: Address)
    ensures
        spec_asset_index(entries, asset) == -1 ==> forall|j: int|
            0 <= j < entries.len() ==> entries[j].asset != asset,
        spec_asset_index(entries, asset) != -1 ==> {
            let idx = spec_asset_index(entries, asset);
            0 <= idx < entries.len() && entries[idx].asset == asset && forall|j: int|
                0 <= j < idx ==> entries[j].asset != asset
        },
    decreases entries.len(),
{
    if entries.len() > 0 && entries[0].asset != asset {
        let rest = entries.drop_first();
        lemma_asset_index_props(rest, asset);
        assert(forall|k: int| 0 <= k < rest.len() ==> rest[k] == entries[k + 1]);
        if spec_asset_index(entries, asset) == -1 {
            assert forall|j: int| 0 <= j < entries.len() implies entries[j].asset != asset by {
                if j > 0 {
                    assert(entries[j] == rest[j - 1]);
                }
            }
        } else {
            let idx = spec_asset_index(entries, asset);
            assert(idx == spec_asset_index(rest, asset) + 1);
            assert(entries[idx] == rest[idx - 1]);
            assert forall|j: int| 0 <= j < idx implies entries[j].asset != asset by {
                if j > 0 {
                    assert(entries[j] == rest[j - 1]);
                }
            }
        }
    }
}

/// A match after an unmatched prefix pins the index down.
pub proof fn lemma_asset_index_found(entries: Seq<CollateralPosition>, asset: Address, i: int)
    requires
        0 <= i < entries.len(),
        forall|j: int| 0 <= j < i ==> entries[j].asset != asset,
        entries[i].asset == asset,
    ensures
        spec_asset_index(entries, asset) == i,
    decreases i,
{
    if i > 0 {
        let rest = entries.drop_first();
        assert(forall|k: int| 0 <= k < rest.len() ==> rest[k] == entries[k + 1]);
        lemma_asset_index_found(rest, asset, i - 1);
    }
}

/// Two lists naming the same assets in the same order index every asset
/// alike.
pub proof fn lemma_asset_index_same_assets(
    s1: Seq<CollateralPosition>,
    s2: Seq<CollateralPosition>,
    asset: Address,
)
    requires
        s1.len() == s2.len(),
        forall|i: int| 0 <= i < s1.len() ==> s1[i].asset == s2[i].asset,
    ensures
        spec_asset_index(s1, asset) == spec_asset_index(s2, asset),
    decreases s1.len(),
{
    if s1.len() > 0 {
        let r1 = s1.drop_first();
        let r2 = s2.drop_first();
        assert(forall|k: int| 0 <= k < r1.len() ==> r1[k] == s1[k + 1]);
        assert(forall|k: int| 0 <= k < r2.len() ==> r2[k] == s2[k + 1]);
        lemma_asset_index_same_assets(r1, r2, asset);
    }
}

/// Appending a holding of another asset leaves an asset's index alone.
pub proof fn lemma_asset_index_push_other(
    entries: Seq<CollateralPosition>,
    e: CollateralPosition,
    asset: Address,
)
    requires
        e.asset != asset,
    ensures
        spec_asset_index(entries.push(e), asset) == spec_asset_index(entries, asset),
    decreases entries.len(),
{
    let p = entries.push(e);
    if entries.len() == 0 {
        assert(p.len() == 1);
        assert(p[0] == e);
        assert(p.drop_first() =~= Seq::<CollateralPosition>::empty());
        assert(spec_asset_index(Seq::<CollateralPosition>::empty(), asset) == -1);
    } else {
        assert(p[0] == entries[0]);
        assert(p.drop_first() =~= entries.drop_first().push(e));
        lemma_asset_index_push_other(entries.drop_first(), e, asset);
    }
}

/// The value one holding contributes to a weighted sum, or the failure
/// that valuing it reports: a missing, disabled or stale price feed, or a
/// product beyond 256 bits. Holdings of amount zero contribute nothing and
/// cannot fail.
pub open spec fn spec_term_result(
    e: CollateralPosition,
    configs: Map<Address, CollateralConfig>,
    oracle: &PriceOracle,
    now: u64,
    w: CollateralWeighting,
) -> Result<nat, LendingError> {
    let amount = u256_as_nat(e.amount);
    if amount == 0 {
        Ok(0)
    } else {
        match oracle.spec_get_price_err(e.asset, now) {
            Some(err) => Err(err),
            None => {
                let price = oracle.spec_price(e.asset);
                if amount * price >= two_pow_256() {
                    Err(LendingError::MathOverflow)
                } else {
                    let value = (amount * price) / spec_scale();
                    match w {
                        CollateralWeighting::Unweighted => Ok(value),
                        CollateralWeighting::LiquidationThreshold => {
                            let wt = u256_as_nat(configs[e.asset].liquidation_threshold);
                            if value * wt >= two_pow_256() {
                                Err(LendingError::MathOverflow)
                            } else {
                                Ok((value * wt) / spec_scale())
                            }
                        },
                        CollateralWeighting::Ltv => {
                            let wt = u256_as_nat(configs[e.asset].ltv);
                            if value * wt >= two_pow_256() {
                                Err(LendingError::MathOverflow)
                            } else {
                                Ok((value * wt) / spec_scale())
                            }
                        },
                    }
                }
            },
        }
    }
}

/// A weighted sum over a holdings list, accumulated left to right from
/// `acc`, or the first failure met: a holding that cannot be valued, or a
/// running total beyond 256 bits.
pub open spec fn spec_sum_result(
    entries: Seq<CollateralPosition>,
    configs: Map<Address, CollateralConfig>,
    oracle: &PriceOracle,
    now: u64,
    w: CollateralWeighting,
    acc: nat,
) -> Result<nat, LendingError>
    decreases entries.len(),
{
    if entries.len() == 0 {
        Ok(acc)
    } else {
        match spec_term_result(entries[0], configs, oracle, now, w) {
            Err(e) => Err(e),
            Ok(t) => if acc + t >= two_pow_256() {
                Err(LendingError::MathOverflow)
            } else {
                spec_sum_result(entries.drop_first(), configs, oracle, now, w, acc + t)
            },
        }
    }
}

/// A failing sum reports a pricing failure or an overflow, nothing else.
pub proof fn lemma_sum_err_kinds(
    entries: Seq<CollateralPosition>,
    configs: Map<Address, CollateralConfig>,
    oracle: &PriceOracle,
    now: u64,
    w: CollateralWeighting,
    acc: nat,
)
    ensures
        spec_sum_result(entries, configs, oracle, now, w, acc) matches Err(e) ==> (e
            == LendingError::PriceFeedNotAvailable || e == LendingError::InvalidPrice || e
            == LendingError::MathOverflow),
    decreases entries.len(),
{
    if entries.len() > 0 {
        match spec_term_result(entries[0], configs, oracle, now, w) {
            Err(e) => {},
            Ok(t) => {
                if acc + t < two_pow_256() {
                    lemma_sum_err_kinds(entries.drop_first(), configs, oracle, now, w, acc + t);
                }
            },
        }
    }
}

/// The health factor of a holdings list against a debt, or the failure
/// valuing it reports: the largest representable value on zero debt, zero
/// on zero weighted collateral, else the weighted value scaled and divided
/// by the debt.
pub open spec fn spec_health_factor_result(
    entries: Seq<CollateralPosition>,
    configs: Map<Address, CollateralConfig>,
    oracle: &PriceOracle,
    now: u64,
    debt: nat,
) -> Result<nat, LendingError> {
    if debt == 0 {
        Ok((two_pow_256() - 1) as nat)
    } else {
        match spec_sum_result(
            entries,
            configs,
            oracle,
            now,
            CollateralWeighting::LiquidationThreshold,
            0,
        ) {
            Err(e) => Err(e),
            Ok(wv) => if wv == 0 {
                Ok(0)
            } else if wv * spec_scale() >= two_pow_256() {
                Err(LendingError::MathOverflow)
            } else {
                Ok(spec_health_factor(wv, debt))
            },
        }
    }
}

/// The health factor itself: the risk-weighted collateral value, scaled
/// and divided by the debt; the largest representable value on zero debt.
pub open spec fn spec_health_factor(weighted_value: nat, debt: nat) -> nat {
    if debt == 0 {
        (two_pow_256() - 1) as nat
    } else if weighted_value == 0 {
        0
    } else {
        (weighted_value * spec_scale()) / debt
    }
}

/// Growing the debt never grows the health factor, the collateral held
/// fixed.
pub proof fn lemma_health_factor_decreases_with_debt(wv: nat, d1: nat, d2: nat)
    requires
        0 < d1 <= d2,
    ensures
        spec_health_factor(wv, d2) <= spec_health_factor(wv, d1),
{
    if wv > 0 {
        lemma_div_is_ordered_by_denominator((wv * spec_scale()) as int, d1 as int, d2 as int);
    }
}

/// Strictly growing the debt strictly shrinks the health factor, the
/// collateral held fixed and nonzero, wherever the quotients are fine
/// enough to tell the two debts apart: when `d1 * d2` does not exceed the
/// scaled collateral value.
pub proof fn lemma_health_factor_strictly_decreases_with_debt(wv: nat, d1: nat, d2: nat)
    requires
        0 < d1 < d2,
        wv > 0,
        d1 * d2 <= wv * spec_scale(),
    ensures
        spec_health_factor(wv, d2) < spec_health_factor(wv, d1),
{
    let n = (wv * spec_scale()) as int;
    let q1 = n / d1 as int;
    let q2 = n / d2 as int;
    lemma_fundamental_div_mod(n, d1 as int);
    lemma_fundamental_div_mod(n, d2 as int);
    assert(d1 * (q2 + 1) <= n) by (nonlinear_arith)
        requires
            n == d2 * q2 + n % (d2 as int),
            0 <= n % (d2 as int) < d2,
            d1 + 1 <= d2,
            d1 * d2 <= n,
            0 < d1,
    ;
    assert(q1 >= q2 + 1) by (nonlinear_arith)
        requires
            n == d1 * q1 + n % (d1 as int),
            0 <= n % (d1 as int) < d1,
            d1 * (q2 + 1) <= n,
            0 < d1,
    ;
}

/// Growing the weighted collateral value never shrinks the health factor,
/// the debt held fixed.
pub proof fn lemma_health_factor_increases_with_collateral(wv1: nat, wv2: nat, d: nat)
    requires
        0 < d,
        wv1 <= wv2,
    ensures
        spec_health_factor(wv1, d) <= spec_health_factor(wv2, d),
{
    if 0 < wv1 {
        lemma_mul_inequality(wv1 as int, wv2 as int, spec_scale() as int);
        lemma_div_is_ordered((wv1 * spec_scale()) as int, (wv2 * spec_scale()) as int, d as int);
    }
}

/// Strictly growing the weighted collateral value strictly grows the
/// health factor, the debt held fixed, wherever the growth is at least one
/// debt's worth of scaled value: when `(wv2 - wv1) * scale >= d`.
pub proof fn lemma_health_factor_strictly_increases_with_collateral(wv1: nat, wv2: nat, d: nat)
    requires
        0 < d,
        wv1 < wv2,
        (wv2 - wv1) * spec_scale() >= d,
    ensures
        spec_health_factor(wv1, d) < spec_health_factor(wv2, d),
{
    let n1 = (wv1 * spec_scale()) as int;
    let n2 = (wv2 * spec_scale()) as int;
    lemma_fundamental_div_mod(n1, d as int);
    lemma_fundamental_div_mod(n2, d as int);
    assert(n2 >= n1 + d) by (nonlinear_arith)
        requires
            n1 == wv1 * spec_scale(),
            n2 == wv2 * spec_scale(),
            wv1 < wv2,
            ((wv2 - wv1) as nat) * spec_scale() >= d,
    ;
    let q1 = n1 / d as int;
    let q2 = n2 / d as int;
    assert(q2 >= q1 + 1) by (nonlinear_arith)
        requires
            n1 == d * q1 + n1 % (d as int),
            0 <= n1 % (d as int) < d,
            n2 == d * q2 + n2 % (d as int),
            0 <= n2 % (d as int) < d,
            n2 >= n1 + d,
            0 < d,
    ;
    if wv1 == 0 {
        assert(spec_health_factor(wv1, d) == 0);
        assert(q1 >= 0);
    }
}

/// Computes a weighted sum over a holdings list, mirroring
/// `spec_sum_result` exactly.
fn sum_entries(
    configs: &HashMap<Address, CollateralConfig>,
    entries: &Vec<CollateralPosition>,
    oracle: &PriceOracle,
    now: u64,
    w: CollateralWeighting,
) -> (r: Result<U256, LendingError>)
    requires
        spec_entries_wf(entries@, configs@),
    ensures
        match r {
            Ok(v) => spec_sum_result(entries@, configs@, oracle, now, w, 0) == Result::<
                nat,
                LendingError,
            >::Ok(u256_as_nat(v)),
            Err(e) => spec_sum_result(entries@, configs@, oracle, now, w, 0) == Result::<
                nat,
                LendingError,
            >::Err(e),
        },
{
    let scale = scale_u256();
    let mut total = u256_zero();
    let mut i: usize = 0;
    proof {
        assert(entries@.skip(0) =~= entries@);
    }
    while i < entries.len()
        invariant
            i <= entries.len(),
            spec_entries_wf(entries@, configs@),
            u256_as_nat(scale) == spec_scale(),
            spec_sum_result(entries@.skip(i as int), configs@, oracle, now, w, u256_as_nat(total))
                == spec_sum_result(entries@, configs@, oracle, now, w, 0),
        decreases entries.len() - i,
    {
        let ghost rest = entries@.skip(i as int);
        proof {
            assert(rest.len() > 0);
            assert(rest[0] == entries@[i as int]);
            assert(rest.drop_first() =~= entries@.skip(i as int + 1));
        }
        let e = entries[i];
        let term: U256;
        if u256_is_zero(&e.amount) {
            term = u256_zero();
        } else {
            let price = match oracle.get_price(e.asset, now) {
                Ok(p) => p,
                Err(err) => {
                    return Err(err);
                },
            };
            let scaled = match u256_checked_mul(&e.amount, &price) {
                Some(v) => v,
                None => {
                    return Err(LendingError::MathOverflow);
                },
            };
            let value = u256_div(&scaled, &scale);
            match w {
                CollateralWeighting::Unweighted => {
                    term = value;
                },
                CollateralWeighting::LiquidationThreshold => {
                    let cfg = match configs.get(&e.asset) {
                        Some(c) => *c,
                        None => unreached(),
                    };
                    let weighted = match u256_checked_mul(&value, &cfg.liquidation_threshold) {
                        Some(v) => v,
                        None => {
                            return Err(LendingError::MathOverflow);
                        },
                    };
                    term = u256_div(&weighted, &scale);
                },
                CollateralWeighting::Ltv => {
                    let cfg = match configs.get(&e.asset) {
                        Some(c) => *c,
                        None => unreached(),
                    };
                    let weighted = match u256_checked_mul(&value, &cfg.ltv) {
                        Some(v) => v,
                        None => {
                            return Err(LendingError::MathOverflow);
                        },
                    };
                    term = u256_div(&weighted, &scale);
                },
            }
        }
        total = match u256_checked_add(&total, &term) {
            Some(v) => v,
            None => {
                return Err(LendingError::MathOverflow);
            },
        };
        i = i + 1;
    }
    proof {
        assert(entries@.skip(entries@.len() as int) =~= Seq::<CollateralPosition>::empty());
    }
    Ok(total)
}

/// Copies a holdings list.
fn copy_entries(entries: &Vec<CollateralPosition>) -> (r: Vec<CollateralPosition>)
    ensures
        r@ == entries@,
{
    let mut out: Vec<CollateralPosition> = Vec::new();
    let mut i: usize = 0;
    while i < entries.len()
        invariant
            i <= entries.len(),
            out@ =~= entries@.take(i as int),
        decreases entries.len() - i,
    {
        out.push(entries[i]);
        proof {
            assert(out@ =~= entries@.take(i as int + 1));
        }
        i = i + 1;
    }
    proof {
        assert(entries@.take(entries@.len() as int) =~= entries@);
    }
    out
}

/// Finds an asset in a holdings list, mirroring `spec_asset_index`.
fn find_asset_index(entries: &Vec<CollateralPosition>, asset: Address) -> (r: Option<usize>)
    ensures
        match r {
            Some(i) => i == spec_asset_index(entries@, asset),
            None => spec_asset_index(entries@, asset) == -1,
        },
{
    let mut i: usize = 0;
    while i < entries.len()
        invariant
            i <= entries.len(),
            forall|j: int| 0 <= j < i ==> entries@[j].asset != asset,
        decreases entries.len() - i,
    {
        if entries[i].asset == asset {
            proof {
                lemma_asset_index_found(entries@, asset, i as int);
            }
            return Some(i);
        }
        i = i + 1;
    }
    proof {
        lemma_asset_index_props(entries@, asset);
        if spec_asset_index(entries@, asset) != -1 {
            assert(false);
        }
    }
    None
}

/// The collateral manager: per-asset risk parameters and per-user ordered
/// holdings, with an event log of its successful operations.
pub struct CollateralManager {
    /// Risk parameters by asset.
    pub collateral_configs: HashMap<Address, CollateralConfig>,
    /// Holdings by user, in order of first deposit.
    pub user_collateral: HashMap<Address, Vec<CollateralPosition>>,
    /// The principal allowed to manage configurations.
    pub admin: Address,
    /// Health factor below which a withdrawal or borrow is refused: one
    /// unit.
    pub min_health_factor: U256,
    /// The audit log.
    pub events: Vec<LendingEvent>,
}

impl CollateralManager {
    /// Every configuration is valid and every holdings list well formed,
    /// with the minimum health factor pinned at one unit.
    pub open spec fn wf(&self) -> bool {
        (forall|a: Address| #[trigger]
            self.collateral_configs@.contains_key(a) ==> spec_config_wf(
                self.collateral_configs@[a],
                a,
            )) && (forall|u: Address| #[trigger]
            self.user_collateral@.contains_key(u) ==> spec_entries_wf(
                self.user_collateral@[u]@,
                self.collateral_configs@,
            )) && u256_as_nat(self.min_health_factor) == spec_scale()
    }

    /// The holdings list of a user, empty for an unknown user.
    pub open spec fn spec_entries(&self, user: Address) -> Seq<CollateralPosition> {
        if self.user_collateral@.contains_key(user) {
            self.user_collateral@[user]@
        } else {
            Seq::<CollateralPosition>::empty()
        }
    }

    /// The amount of one asset a user holds, zero when none.
    pub open spec fn spec_user_collateral(&self, user: Address, asset: Address) -> nat {
        let entries = self.spec_entries(user);
        let idx = spec_asset_index(entries, asset);
        if idx == -1 {
            0
        } else {
            u256_as_nat(entries[idx].amount)
        }
    }

    /// Creates the manager with no configurations and no holdings.
    pub fn init(caller: Address) -> (s: Self)
        ensures
            s.admin == caller,
            s.collateral_configs@ == Map::<Address, CollateralConfig>::empty(),
            s.user_collateral@ == Map::<Address, Vec<CollateralPosition>>::empty(),
            s.events@ == Seq::<LendingEvent>::empty(),
            s.wf(),
    {
        CollateralManager {
            collateral_configs: HashMap::new(),
            user_collateral: HashMap::new(),
            admin: caller,
            min_health_factor: scale_u256(),
            events: Vec::new(),
        }
    }

    /// Adds a collateral type, enabled; only the admin may, and the
    /// parameters must satisfy `ltv <= liquidation_threshold <= scale`.
    pub fn add_collateral(
        &mut self,
        caller: Address,
        asset: Address,
        ltv: U256,
        liquidation_threshold: U256,
        liquidation_bonus: U256,
    ) -> (r: Result<(), LendingError>)
        requires
            old(self).wf(),
        ensures
            final(self).wf(),
            match r {
                Ok(()) => caller == old(self).admin && u256_as_nat(ltv) <= u256_as_nat(
                    liquidation_threshold,
                ) && u256_as_nat(liquidation_threshold) <= spec_scale() && final(self).collateral_configs@ == old(self).collateral_configs@.insert(
                    asset,
                    (CollateralConfig {
                        asset,
                        ltv,
                        liquidation_threshold,
                        liquidation_bonus,
                        is_enabled: true,
                    }),
                ) && final(self).user_collateral@ == old(self).user_collateral@ && final(self).admin == old(self).admin && final(self).min_health_factor == old(self).min_health_factor && final(self).events@ == old(self).events@.push(
                    LendingEvent::CollateralAdded(
                        (CollateralAdded {
                            asset,
                            ltv,
                            liquidation_threshold,
                            liquidation_bonus,
                            added_by: old(self).admin,
                        }),
                    ),
                ),
                Err(e) => *final(self) == *old(self) && ((e == LendingError::Unauthorized && caller
                    != old(self).admin) || (e == LendingError::InvalidConfiguration && caller
                    == old(self).admin && (u256_as_nat(liquidation_threshold) > spec_scale()
                    || u256_as_nat(ltv) > u256_as_nat(liquidation_threshold)))),
            },
            r is Ok <==> (caller == old(self).admin && u256_as_nat(ltv) <= u256_as_nat(
                liquidation_threshold,
            ) && u256_as_nat(liquidation_threshold) <= spec_scale()),
    {
        if caller != self.admin {
            return Err(LendingError::Unauthorized);
        }
        let scale = scale_u256();
        if !u256_le(&ltv, &scale) || !u256_le(&liquidation_threshold, &scale) {
            return Err(LendingError::InvalidConfiguration);
        }
        if !u256_le(&ltv, &liquidation_threshold) {
            return Err(LendingError::InvalidConfiguration);
        }
        let config = CollateralConfig {
            asset,
            ltv,
            liquidation_threshold,
            liquidation_bonus,
            is_enabled: true,
        };
        self.collateral_configs.insert(asset, config);
        let event = LendingEvent::CollateralAdded(
            CollateralAdded {
                asset,
                ltv,
                liquidation_threshold,
                liquidation_bonus,
                added_by: self.admin,
            },
        );
        self.events.push(event);
        proof {
            assert forall|u: Address| #[trigger]
                final(self).user_collateral@.contains_key(u) implies spec_entries_wf(
                final(self).user_collateral@[u]@,
                final(self).collateral_configs@,
            ) by {
                assert(old(self).user_collateral@.contains_key(u));
            }
        }
        Ok(())
    }

    /// Updates a collateral type's parameters, keeping its enablement;
    /// only the admin may, the type must exist, and the parameters must
    /// satisfy `ltv <= liquidation_threshold <= scale`.
    pub fn update_collateral(
        &mut self,
        caller: Address,
        asset: Address,
        ltv: U256,
        liquidation_threshold: U256,
        liquidation_bonus: U256,
    ) -> (r: Result<(), LendingError>)
        requires
            old(self).wf(),
        ensures
            final(self).wf(),
            match r {
                Ok(()) => caller == old(self).admin && old(self).collateral_configs@.contains_key(
                    asset,
                ) && u256_as_nat(ltv) <= u256_as_nat(liquidation_threshold) && u256_as_nat(
                    liquidation_threshold,
                ) <= spec_scale() && final(self).collateral_configs@ == old(self).collateral_configs@.insert(
                    asset,
                    (CollateralConfig {
                        asset,
                        ltv,
                        liquidation_threshold,
                        liquidation_bonus,
                        is_enabled: old(self).collateral_configs@[asset].is_enabled,
                    }),
                ) && final(self).user_collateral@ == old(self).user_collateral@ && final(self).admin == old(self).admin && final(self).min_health_factor == old(self).min_health_factor && final(self).events@ == old(self).events@.push(
                    LendingEvent::CollateralUpdated(
                        (CollateralUpdated {
                            asset,
                            ltv,
                            liquidation_threshold,
                            liquidation_bonus,
                            updated_by: old(self).admin,
                        }),
                    ),
                ),
                Err(e) => *final(self) == *old(self) && ((e == LendingError::Unauthorized && caller
                    != old(self).admin) || (e == LendingError::UnsupportedCollateral && caller
                    == old(self).admin && !old(self).collateral_configs@.contains_key(asset)) || (e
                    == LendingError::InvalidConfiguration && caller == old(self).admin && old(self).collateral_configs@.contains_key(asset) && (u256_as_nat(liquidation_threshold)
                    > spec_scale() || u256_as_nat(ltv) > u256_as_nat(liquidation_threshold)))),
            },
            r is Ok <==> (caller == old(self).admin && old(self).collateral_configs@.contains_key(
                asset,
            ) && u256_as_nat(ltv) <= u256_as_nat(liquidation_threshold) && u256_as_nat(
                liquidation_threshold,
            ) <= spec_scale()),
    {
        if caller != self.admin {
            return Err(LendingError::Unauthorized);
        }
        let existing = match self.collateral_configs.get(&asset) {
            Some(c) => *c,
            None => {
                return Err(LendingError::UnsupportedCollateral);
            },
        };
        let scale = scale_u256();
        if !u256_le(&ltv, &scale) || !u256_le(&liquidation_threshold, &scale) {
            return Err(LendingError::InvalidConfiguration);
        }
        if !u256_le(&ltv, &liquidation_threshold) {
            return Err(LendingError::InvalidConfiguration);
        }
        let config = CollateralConfig {
            asset,
            ltv,
            liquidation_threshold,
            liquidation_bonus,
            is_enabled: existing.is_enabled,
        };
        self.collateral_configs.insert(asset, config);
        let event = LendingEvent::CollateralUpdated(
            CollateralUpdated {
                asset,
                ltv,
                liquidation_threshold,
                liquidation_bonus,
                updated_by: self.admin,
            },
        );
        self.events.push(event);
        proof {
            assert forall|u: Address| #[trigger]
                final(self).user_collateral@.contains_key(u) implies spec_entries_wf(
                final(self).user_collateral@[u]@,
                final(self).collateral_configs@,
            ) by {
                assert(old(self).user_collateral@.contains_key(u));
            }
        }
        Ok(())
    }

    /// Enables or disables a collateral type; only the admin may, and the
    /// type must exist.
    pub fn set_collateral_enabled(&mut self, caller: Address, asset: Address, enabled: bool) -> (r:
        Result<(), LendingError>)
        requires
            old(self).wf(),
        ensures
            final(self).wf(),
            match r {
                Ok(()) => caller == old(self).admin && old(self).collateral_configs@.contains_key(
                    asset,
                ) && final(self).collateral_configs@ == old(self).collateral_configs@.insert(
                    asset,
                    (CollateralConfig {
                        is_enabled: enabled,
                        ..old(self).collateral_configs@[asset]
                    }),
                ) && final(self).user_collateral@ == old(self).user_collateral@ && final(self).admin == old(self).admin && final(self).min_health_factor == old(self).min_health_factor && final(self).events@ == old(self).events@,
                Err(e) => *final(self) == *old(self) && ((e == LendingError::Unauthorized && caller
                    != old(self).admin) || (e == LendingError::UnsupportedCollateral && caller
                    == old(self).admin && !old(self).collateral_configs@.contains_key(asset))),
            },
            r is Ok <==> (caller == old(self).admin && old(self).collateral_configs@.contains_key(
                asset,
            )),
    {
        if caller != self.admin {
            return Err(LendingError::Unauthorized);
        }
        let existing = match self.collateral_configs.get(&asset) {
            Some(c) => *c,
            None => {
                return Err(LendingError::UnsupportedCollateral);
            },
        };
        let config = CollateralConfig { is_enabled: enabled, ..existing };
        self.collateral_configs.insert(asset, config);
        proof {
            assert forall|u: Address| #[trigger]
                final(self).user_collateral@.contains_key(u) implies spec_entries_wf(
                final(self).user_collateral@[u]@,
                final(self).collateral_configs@,
            ) by {
                assert(old(self).user_collateral@.contains_key(u));
            }
        }
        Ok(())
    }

    /// Deposits collateral for the caller: the asset must be configured
    /// and enabled, the amount nonzero, and the grown balance must fit in
    /// 256 bits.
    pub fn deposit_collateral(&mut self, caller: Address, asset: Address, amount: U256, now: u64)
        -> (r: Result<(), LendingError>)
        requires
            old(self).wf(),
        ensures
            final(self).wf(),
            match r {
                Ok(()) => {
                    &&& u256_as_nat(amount) > 0
                    &&& old(self).collateral_configs@.contains_key(asset)
                    &&& old(self).collateral_configs@[asset].is_enabled
                    &&& old(self).spec_user_collateral(caller, asset) + u256_as_nat(amount)
                        < two_pow_256()
                    &&& final(self).collateral_configs@ == old(self).collateral_configs@
                    &&& final(self).admin == old(self).admin
                    &&& final(self).min_health_factor == old(self).min_health_factor
                    &&& final(self).spec_user_collateral(caller, asset) == old(self).spec_user_collateral(caller, asset) + u256_as_nat(amount)
                    &&& forall|u: Address, a: Address|
                        u != caller || a != asset ==> final(self).spec_user_collateral(u, a) == old(self).spec_user_collateral(u, a)
                    &&& final(self).events@ == old(self).events@.push(
                        LendingEvent::CollateralDeposited(
                            (CollateralDeposited { user: caller, asset, amount, timestamp: now }),
                        ),
                    )
                },
                Err(e) => *final(self) == *old(self) && ((e == LendingError::ZeroAmount
                    && u256_as_nat(amount) == 0) || (e == LendingError::UnsupportedCollateral
                    && u256_as_nat(amount) > 0 && !old(self).collateral_configs@.contains_key(
                    asset,
                )) || (e == LendingError::CollateralDisabled && u256_as_nat(amount) > 0 && old(self).collateral_configs@.contains_key(asset) && !old(self).collateral_configs@[asset].is_enabled) || (e == LendingError::MathOverflow
                    && u256_as_nat(amount) > 0 && old(self).collateral_configs@.contains_key(asset)
                    && old(self).collateral_configs@[asset].is_enabled && old(self).spec_user_collateral(caller, asset) + u256_as_nat(amount) >= two_pow_256())),
            },
            r is Ok <==> (u256_as_nat(amount) > 0 && old(self).collateral_configs@.contains_key(
                asset,
            ) && old(self).collateral_configs@[asset].is_enabled && old(self).spec_user_collateral(
                caller,
                asset,
            ) + u256_as_nat(amount) < two_pow_256()),
    {
        if u256_is_zero(&amount) {
            return Err(LendingError::ZeroAmount);
        }
        let config = match self.collateral_configs.get(&asset) {
            Some(c) => *c,
            None => {
                return Err(LendingError::UnsupportedCollateral);
            },
        };
        if !config.is_enabled {
            return Err(LendingError::CollateralDisabled);
        }
        let mut entries = match self.user_collateral.get(&caller) {
            Some(v) => copy_entries(v),
            None => Vec::new(),
        };
        let ghost entries0 = entries@;
        proof {
            assert(entries0 =~= old(self).spec_entries(caller));
            assert(spec_entries_wf(entries0, self.collateral_configs@));
            lemma_asset_index_props(entries0, asset);
        }
        let ghost idx0 = spec_asset_index(entries0, asset);
        match find_asset_index(&entries, asset) {
            Some(i) => {
                let current = entries[i].amount;
                let new_balance = match u256_checked_add(&current, &amount) {
                    Some(v) => v,
                    None => {
                        return Err(LendingError::MathOverflow);
                    },
                };
                entries.set(i, CollateralPosition { asset, amount: new_balance });
                proof {
                    assert forall|j: int| 0 <= j < i implies entries@[j].asset != asset by {
                        assert(entries@[j] == entries0[j]);
                    }
                    lemma_asset_index_found(entries@, asset, i as int);
                }
            },
            None => {
                entries.push(CollateralPosition { asset, amount });
                proof {
                    lemma_asset_index_found(entries@, asset, entries@.len() - 1);
                }
            },
        }
        let ghost entries1 = entries@;
        self.user_collateral.insert(caller, entries);
        let event = LendingEvent::CollateralDeposited(
            CollateralDeposited { user: caller, asset, amount, timestamp: now },
        );
        self.events.push(event);
        proof {
            assert forall|j: int|
                0 <= j < entries1.len() implies self.collateral_configs@.contains_key(
                #[trigger] entries1[j].asset,
            ) by {
                if j < entries0.len() {
                    assert(entries1[j].asset == entries0[j].asset);
                } else {
                    assert(entries1[j].asset == asset);
                }
            }
            assert forall|j: int, k: int|
                0 <= j < k < entries1.len() implies entries1[j].asset != entries1[k].asset by {
                assert(entries1[j].asset == entries0[j].asset);
                if k < entries0.len() {
                    assert(entries1[k].asset == entries0[k].asset);
                } else {
                    assert(entries1[k].asset == asset);
                }
            }
            assert(spec_entries_wf(entries1, self.collateral_configs@));
            assert forall|u: Address| #[trigger]
                self.user_collateral@.contains_key(u) implies spec_entries_wf(
                self.user_collateral@[u]@,
                self.collateral_configs@,
            ) by {
                if u != caller {
                    assert(old(self).user_collateral@.contains_key(u));
                }
            }
            assert(self.spec_entries(caller) == entries1);
            assert forall|u: Address, a: Address|
                u != caller || a != asset implies self.spec_user_collateral(u, a) == old(
                self,
            ).spec_user_collateral(u, a) by {
                if u == caller {
                    if idx0 == -1 {
                        lemma_asset_index_push_other(
                            entries0,
                            (CollateralPosition { asset, amount }),
                            a,
                        );
                    } else {
                        lemma_asset_index_same_assets(entries0, entries1, a);
                    }
                    lemma_asset_index_props(entries1, a);
                    lemma_asset_index_props(entries0, a);
                }
            }
        }
        Ok(())
    }

    /// Withdraws collateral for the caller, refusing any withdrawal that
    /// would leave an indebted user below the minimum health factor; a
    /// refused call leaves the whole state unchanged.
    pub fn withdraw_collateral(
        &mut self,
        caller: Address,
        asset: Address,
        amount: U256,
        user_debt: U256,
        oracle: &PriceOracle,
        now: u64,
    ) -> (r: Result<(), LendingError>)
        requires
            old(self).wf(),
        ensures
            final(self).wf(),
            r is Err ==> *final(self) == *old(self),
            (r == Result::<(), LendingError>::Err(LendingError::ZeroAmount)) <==> u256_as_nat(
                amount,
            ) == 0,
            u256_as_nat(amount) > 0 ==> ((r == Result::<(), LendingError>::Err(
                LendingError::InsufficientCollateralDeposit,
            )) <==> old(self).spec_user_collateral(caller, asset) < u256_as_nat(amount)),
            (u256_as_nat(amount) > 0 && old(self).spec_user_collateral(caller, asset)
                >= u256_as_nat(amount) && u256_as_nat(user_debt) == 0) ==> r is Ok,
            (u256_as_nat(amount) > 0 && old(self).spec_user_collateral(caller, asset)
                >= u256_as_nat(amount) && u256_as_nat(user_debt) > 0) ==> (exists|v: U256|
                #[trigger] u256_as_nat(v) == old(self).spec_user_collateral(caller, asset)
                    - u256_as_nat(amount) && (match spec_health_factor_result(
                    old(self).spec_entries(caller).update(
                        spec_asset_index(old(self).spec_entries(caller), asset),
                        (CollateralPosition { asset, amount: v }),
                    ),
                    old(self).collateral_configs@,
                    oracle,
                    now,
                    u256_as_nat(user_debt),
                ) {
                    Err(e) => r == Result::<(), LendingError>::Err(e),
                    Ok(hf) => if hf < spec_scale() {
                        r == Result::<(), LendingError>::Err(
                            LendingError::CannotWithdrawCollateral,
                        )
                    } else {
                        r is Ok
                    },
                })),
            r is Ok ==> {
                &&& u256_as_nat(amount) > 0
                &&& u256_as_nat(amount) <= old(self).spec_user_collateral(caller, asset)
                &&& final(self).collateral_configs@ == old(self).collateral_configs@
                &&& final(self).admin == old(self).admin
                &&& final(self).min_health_factor == old(self).min_health_factor
                &&& final(self).spec_user_collateral(caller, asset) == old(
                    self,
                ).spec_user_collateral(caller, asset) - u256_as_nat(amount)
                &&& forall|u: Address, a: Address|
                    u != caller || a != asset ==> final(self).spec_user_collateral(u, a) == old(
                        self,
                    ).spec_user_collateral(u, a)
                &&& final(self).events@ == old(self).events@.push(
                    LendingEvent::CollateralWithdrawn(
                        (CollateralWithdrawn { user: caller, asset, amount, timestamp: now }),
                    ),
                )
                &&& (u256_as_nat(user_debt) > 0 ==> spec_health_factor_result(
                    final(self).spec_entries(caller),
                    old(self).collateral_configs@,
                    oracle,
                    now,
                    u256_as_nat(user_debt),
                ) is Ok && spec_health_factor_result(
                    final(self).spec_entries(caller),
                    old(self).collateral_configs@,
                    oracle,
                    now,
                    u256_as_nat(user_debt),
                )->Ok_0 >= spec_scale())
            },
    {
        if u256_is_zero(&amount) {
            return Err(LendingError::ZeroAmount);
        }
        let entries_ref = match self.user_collateral.get(&caller) {
            Some(v) => v,
            None => {
                proof {
                    assert(old(self).spec_entries(caller) =~= Seq::<CollateralPosition>::empty());
                }
                return Err(LendingError::InsufficientCollateralDeposit);
            },
        };
        let mut entries = copy_entries(entries_ref);
        let ghost entries0 = entries@;
        proof {
            assert(entries0 =~= old(self).spec_entries(caller));
            assert(spec_entries_wf(entries0, self.collateral_configs@));
            lemma_asset_index_props(entries0, asset);
        }
        let i = match find_asset_index(&entries, asset) {
            Some(i) => i,
            None => {
                return Err(LendingError::InsufficientCollateralDeposit);
            },
        };
        let current = entries[i].amount;
        if u256_lt(&current, &amount) {
            return Err(LendingError::InsufficientCollateralDeposit);
        }
        let new_balance = u256_sub(&current, &amount);
        entries.set(i, CollateralPosition { asset, amount: new_balance });
        let ghost entries1 = entries@;
        proof {
            assert forall|j: int| 0 <= j < i implies entries1[j].asset != asset by {
                assert(entries1[j] == entries0[j]);
            }
            lemma_asset_index_found(entries1, asset, i as int);
            assert forall|j: int|
                0 <= j < entries1.len() implies self.collateral_configs@.contains_key(
                #[trigger] entries1[j].asset,
            ) by {
                assert(entries1[j].asset == entries0[j].asset);
            }
            assert forall|j: int, k: int|
                0 <= j < k < entries1.len() implies entries1[j].asset != entries1[k].asset by {
                assert(entries1[j].asset == entries0[j].asset);
                assert(entries1[k].asset == entries0[k].asset);
            }
            assert(spec_entries_wf(entries1, self.collateral_configs@));
        }
        if !u256_is_zero(&user_debt) {
            let health_factor = match self.health_factor_of_entries(
                &entries,
                user_debt,
                oracle,
                now,
            ) {
                Ok(h) => h,
                Err(e) => {
                    proof {
                        lemma_sum_err_kinds(
                            entries1,
                            self.collateral_configs@,
                            oracle,
                            now,
                            CollateralWeighting::LiquidationThreshold,
                            0,
                        );
                    }
                    return Err(e);
                },
            };
            if u256_lt(&health_factor, &self.min_health_factor) {
                return Err(LendingError::CannotWithdrawCollateral);
            }
        }
        self.user_collateral.insert(caller, entries);
        let event = LendingEvent::CollateralWithdrawn(
            CollateralWithdrawn { user: caller, asset, amount, timestamp: now },
        );
        self.events.push(event);
        proof {
            assert forall|u: Address| #[trigger]
                self.user_collateral@.contains_key(u) implies spec_entries_wf(
                self.user_collateral@[u]@,
                self.collateral_configs@,
            ) by {
                if u != caller {
                    assert(old(self).user_collateral@.contains_key(u));
                }
            }
            assert(self.spec_entries(caller) == entries1);
            assert forall|u: Address, a: Address|
                u != caller || a != asset implies self.spec_user_collateral(u, a) == old(
                self,
            ).spec_user_collateral(u, a) by {
                if u == caller {
                    lemma_asset_index_same_assets(entries0, entries1, a);
                    lemma_asset_index_props(entries1, a);
                    lemma_asset_index_props(entries0, a);
                }
            }
        }
        Ok(())
    }

    /// The health factor of a holdings list against a debt.
    fn health_factor_of_entries(
        &self,
        entries: &Vec<CollateralPosition>,
        debt: U256,
        oracle: &PriceOracle,
        now: u64,
    ) -> (r: Result<U256, LendingError>)
        requires
            self.wf(),
            spec_entries_wf(entries@, self.collateral_configs@),
        ensures
            match r {
                Ok(v) => spec_health_factor_result(
                    entries@,
                    self.collateral_configs@,
                    oracle,
                    now,
                    u256_as_nat(debt),
                ) == Result::<nat, LendingError>::Ok(u256_as_nat(v)),
                Err(e) => spec_health_factor_result(
                    entries@,
                    self.collateral_configs@,
                    oracle,
                    now,
                    u256_as_nat(debt),
                ) == Result::<nat, LendingError>::Err(e),
            },
    {
        if u256_is_zero(&debt) {
            return Ok(u256_max_value());
        }
        let weighted = match sum_entries(
            &self.collateral_configs,
            entries,
            oracle,
            now,
            CollateralWeighting::LiquidationThreshold,
        ) {
            Ok(v) => v,
            Err(e) => {
                return Err(e);
            },
        };
        if u256_is_zero(&weighted) {
            return Ok(u256_zero());
        }
        let scale = scale_u256();
        let scaled = match u256_checked_mul(&weighted, &scale) {
            Some(v) => v,
            None => {
                return Err(LendingError::MathOverflow);
            },
        };
        Ok(u256_div(&scaled, &debt))
    }

    /// The caller-facing health factor: the largest representable value on
    /// zero debt, else risk-weighted collateral value scaled and divided
    /// by the debt.
    pub fn calculate_health_factor(
        &self,
        user: Address,
        debt: U256,
        oracle: &PriceOracle,
        now: u64,
    ) -> (r: Result<U256, LendingError>)
        requires
            self.wf(),
        ensures
            match r {
                Ok(v) => spec_health_factor_result(
                    self.spec_entries(user),
                    self.collateral_configs@,
                    oracle,
                    now,
                    u256_as_nat(debt),
                ) == Result::<nat, LendingError>::Ok(u256_as_nat(v)),
                Err(e) => spec_health_factor_result(
                    self.spec_entries(user),
                    self.collateral_configs@,
                    oracle,
                    now,
                    u256_as_nat(debt),
                ) == Result::<nat, LendingError>::Err(e),
            },
    {
        if u256_is_zero(&debt) {
            return Ok(u256_max_value());
        }
        match self.user_collateral.get(&user) {
            Some(v) => self.health_factor_of_entries(v, debt, oracle, now),
            None => {
                let empty: Vec<CollateralPosition> = Vec::new();
                proof {
                    assert(empty@ =~= self.spec_entries(user));
                }
                self.health_factor_of_entries(&empty, debt, oracle, now)
            },
        }
    }

    /// The plain value of all a user's collateral in the valuation unit.
    pub fn get_user_collateral_value(&self, user: Address, oracle: &PriceOracle, now: u64) -> (r:
        Result<U256, LendingError>)
        requires
            self.wf(),
        ensures
            match r {
                Ok(v) => spec_sum_result(
                    self.spec_entries(user),
                    self.collateral_configs@,
                    oracle,
                    now,
                    CollateralWeighting::Unweighted,
                    0,
                ) == Result::<nat, LendingError>::Ok(u256_as_nat(v)),
                Err(e) => spec_sum_result(
                    self.spec_entries(user),
                    self.collateral_configs@,
                    oracle,
                    now,
                    CollateralWeighting::Unweighted,
                    0,
                ) == Result::<nat, LendingError>::Err(e),
            },
    {
        match self.user_collateral.get(&user) {
            Some(v) => sum_entries(
                &self.collateral_configs,
                v,
                oracle,
                now,
                CollateralWeighting::Unweighted,
            ),
            None => {
                proof {
                    assert(self.spec_entries(user) =~= Seq::<CollateralPosition>::empty());
                }
                Ok(u256_zero())
            },
        }
    }

    /// The borrowing power of a user: each holding's value weighted by its
    /// loan-to-value ratio.
    pub fn get_max_borrow_amount(&self, user: Address, oracle: &PriceOracle, now: u64) -> (r:
        Result<U256, LendingError>)
        requires
            self.wf(),
        ensures
            match r {
                Ok(v) => spec_sum_result(
                    self.spec_entries(user),
                    self.collateral_configs@,
                    oracle,
                    now,
                    CollateralWeighting::Ltv,
                    0,
                ) == Result::<nat, LendingError>::Ok(u256_as_nat(v)),
                Err(e) => spec_sum_result(
                    self.spec_entries(user),
                    self.collateral_configs@,
                    oracle,
                    now,
                    CollateralWeighting::Ltv,
                    0,
                ) == Result::<nat, LendingError>::Err(e),
            },
    {
        match self.user_collateral.get(&user) {
            Some(v) => sum_entries(
                &self.collateral_configs,
                v,
                oracle,
                now,
                CollateralWeighting::Ltv,
            ),
            None => {
                proof {
                    assert(self.spec_entries(user) =~= Seq::<CollateralPosition>::empty());
                }
                Ok(u256_zero())
            },
        }
    }

    /// The amount of one asset a user holds as collateral.
    pub fn get_user_collateral(&self, user: Address, asset: Address) -> (r: U256)
        ensures
            u256_as_nat(r) == self.spec_user_collateral(user, asset),
    {
        let entries = match self.user_collateral.get(&user) {
            Some(v) => v,
            None => {
                return u256_zero();
            },
        };
        match find_asset_index(entries, asset) {
            Some(i) => {
                proof {
                    lemma_asset_index_props(entries@, asset);
                }
                entries[i].amount
            },
            None => u256_zero(),
        }
    }

    /// The configuration of a collateral asset; fails when none exists.
    pub fn get_collateral_config(&self, asset: Address) -> (r: Result<
        CollateralConfig,
        LendingError,
    >)
        ensures
            match r {
                Ok(c) => self.collateral_configs@.contains_key(asset) && c
                    == self.collateral_configs@[asset],
                Err(e) => e == LendingError::UnsupportedCollateral
                    && !self.collateral_configs@.contains_key(asset),
            },
            r is Ok <==> self.collateral_configs@.contains_key(asset),
    {
        match self.collateral_configs.get(&asset) {
            Some(c) => Ok(*c),
            None => Err(LendingError::UnsupportedCollateral),
        }
    }

    /// Whether a user's position may be liquidated: nonzero debt with a
    /// health factor strictly below one unit.
    pub fn can_liquidate(&self, user: Address, debt: U256, oracle: &PriceOracle, now: u64) -> (r:
        Result<bool, LendingError>)
        requires
            self.wf(),
        ensures
            match r {
                Ok(b) => if u256_as_nat(debt) == 0 {
                    b == false
                } else {
                    spec_health_factor_result(
                        self.spec_entries(user),
                        self.collateral_configs@,
                        oracle,
                        now,
                        u256_as_nat(debt),
                    ) is Ok && b == (spec_health_factor_result(
                        self.spec_entries(user),
                        self.collateral_configs@,
                        oracle,
                        now,
                        u256_as_nat(debt),
                    )->Ok_0 < spec_scale())
                },
                Err(e) => u256_as_nat(debt) > 0 && spec_health_factor_result(
                    self.spec_entries(user),
                    self.collateral_configs@,
                    oracle,
                    now,
                    u256_as_nat(debt),
                ) == Result::<nat, LendingError>::Err(e),
            },
    {
        if u256_is_zero(&debt) {
            return Ok(false);
        }
        let health_factor = match self.calculate_health_factor(user, debt, oracle, now) {
            Ok(h) => h,
            Err(e) => {
                return Err(e);
            },
        };
        Ok(u256_lt(&health_factor, &self.min_health_factor))
    }
}

} // verus!
