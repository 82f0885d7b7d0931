//! Share-vault accounting for the interest-bearing claim token: supply and
//! balances, the share/asset exchange rate, and the privileged operations
//! reserved to the registered lending pool.

use vstd::prelude::*;
use vstd::arithmetic::div_mod::{
    lemma_div_is_ordered, lemma_div_multiples_vanish, lemma_fundamental_div_mod,
};
use vstd::arithmetic::mul::lemma_mul_is_commutative;
use std::collections::HashMap;
use casper_types::U256;
use crate::Address;
use crate::errors::LendingError;
use crate::num::{
    two_pow_256, u256_as_nat, u256_checked_add, u256_div, u256_is_zero, u256_lt, u256_mul,
    u256_sub, u256_zero,
};

verus! {

broadcast use crate::num::lemma_u256_as_nat_bound, vstd::std_specs::hash::group_hash_axioms;

/// Shares for a deposit of assets: one for one while the vault is fresh,
/// the running `total_supply / total_assets` ratio afterwards, rounded
/// toward zero.
pub open spec fn spec_convert_to_shares(supply: nat, assets_total: nat, assets: nat) -> nat {
    if supply == 0 || assets_total == 0 {
        assets
    } else {
        (assets * supply) / assets_total
    }
}

/// Whether the share conversion stays within 256 bits.
pub open spec fn spec_convert_to_shares_fits(supply: nat, assets_total: nat, assets: nat) -> bool {
    supply == 0 || assets_total == 0 || assets * supply < two_pow_256()
}

/// Assets for a redemption of shares: one for one while no shares exist,
/// the running `total_assets / total_supply` ratio afterwards, rounded
/// toward zero.
pub open spec fn spec_convert_to_assets(supply: nat, assets_total: nat, shares: nat) -> nat {
    if supply == 0 {
        shares
    } else {
        (shares * assets_total) / supply
    }
}

/// Whether the asset conversion stays within 256 bits.
pub open spec fn spec_convert_to_assets_fits(supply: nat, assets_total: nat, shares: nat) -> bool {
    supply == 0 || shares * assets_total < two_pow_256()
}

/// Converting assets to shares and back never mints value: on a fresh
/// vault the round trip is exact, and in every state redeeming the shares
/// minted for `a` assets returns at most `a`.
pub proof fn lemma_vault_round_trip(supply: nat, assets_total: nat, a: nat)
    ensures
        supply == 0 ==> spec_convert_to_shares(supply, assets_total, a) == a
            && spec_convert_to_assets(supply, assets_total, a) == a,
        spec_convert_to_assets(
            supply,
            assets_total,
            spec_convert_to_shares(supply, assets_total, a),
        ) <= a,
{
    if supply > 0 && assets_total > 0 {
        let s = spec_convert_to_shares(supply, assets_total, a);
        lemma_fundamental_div_mod((a * supply) as int, assets_total as int);
        assert(s * assets_total <= a * supply) by (nonlinear_arith)
            requires
                a * supply == assets_total * ((a * supply) as int / assets_total as int) + (a
                    * supply) as int % assets_total as int,
                0 <= (a * supply) as int % assets_total as int,
                s == (a * supply) / assets_total,
                assets_total > 0,
        ;
        lemma_div_is_ordered((s * assets_total) as int, (a * supply) as int, supply as int);
        lemma_mul_is_commutative(a as int, supply as int);
        lemma_div_multiples_vanish(a as int, supply as int);
    }
}

/// The interest-bearing share vault. Its supply and balances move only
/// through the privileged mint and burn calls of the registered lending
/// pool; its recorded assets follow the pool's ledger.
pub struct AectoVault {
    /// Token name of the share token.
    pub name: String,
    /// Token symbol of the share token.
    pub symbol: String,
    /// Token decimals of the share token.
    pub decimals: u8,
    /// Total shares outstanding.
    pub total_supply: U256,
    /// Shares held, by holder.
    pub balances: HashMap<Address, U256>,
    /// Spending allowances, by owner and then spender.
    pub allowances: HashMap<Address, HashMap<Address, U256>>,
    /// Pooled assets the shares lay claim to.
    pub total_assets: U256,
    /// The one principal allowed to mint, burn and set the assets.
    pub lending_pool: Address,
    /// The principal allowed to pause.
    pub admin: Address,
    /// Whether the vault is paused.
    pub paused: bool,
}

impl AectoVault {
    /// Creates the vault for the given lending pool, with no shares and no
    /// recorded assets.
    pub fn init(caller: Address, lending_pool_address: Address) -> (s: Self)
        ensures
            s.name@ == "Aave ECTO"@,
            s.symbol@ == "aECTO"@,
            s.decimals == 18u8,
            u256_as_nat(s.total_supply) == 0,
            s.balances@ == Map::<Address, U256>::empty(),
            s.allowances@ == Map::<Address, HashMap<Address, U256>>::empty(),
            u256_as_nat(s.total_assets) == 0,
            s.lending_pool == lending_pool_address,
            s.admin == caller,
            !s.paused,
    {
        AectoVault {
            name: "Aave ECTO".to_string(),
            symbol: "aECTO".to_string(),
            decimals: 18,
            total_supply: u256_zero(),
            balances: HashMap::new(),
            allowances: HashMap::new(),
            total_assets: u256_zero(),
            lending_pool: lending_pool_address,
            admin: caller,
            paused: false,
        }
    }

    /// The share token's name.
    pub fn name(&self) -> (r: String)
        ensures
            r@ == self.name@,
    {
        self.name.clone()
    }

    /// The share token's symbol.
    pub fn symbol(&self) -> (r: String)
        ensures
            r@ == self.symbol@,
    {
        self.symbol.clone()
    }

    /// The share token's decimals.
    pub fn decimals(&self) -> (r: u8)
        ensures
            r == self.decimals,
    {
        self.decimals
    }

    /// Total shares outstanding.
    pub fn total_supply(&self) -> (r: U256)
        ensures
            u256_as_nat(r) == u256_as_nat(self.total_supply),
    {
        self.total_supply
    }

    /// The shares a holder owns, zero for an unknown holder.
    pub fn balance_of(&self, owner: Address) -> (r: U256)
        ensures
            u256_as_nat(r) == self.spec_balance_of(owner),
    {
        match self.balances.get(&owner) {
            Some(b) => *b,
            None => u256_zero(),
        }
    }

    /// The shares a holder owns, zero for an unknown holder.
    pub open spec fn spec_balance_of(&self, owner: Address) -> nat {
        if self.balances@.contains_key(owner) {
            u256_as_nat(self.balances@[owner])
        } else {
            0
        }
    }

    /// Everything but supply, balances and recorded assets, compared
    /// across a call.
    pub open spec fn same_config(&self, other: &Self) -> bool {
        self.name@ == other.name@ && self.symbol@ == other.symbol@ && self.decimals
            == other.decimals && self.lending_pool == other.lending_pool && self.admin
            == other.admin && self.paused == other.paused && self.allowances@
            == other.allowances@
    }

    /// The shares a spender may move for an owner, zero when never set.
    pub open spec fn spec_allowance(&self, owner: Address, spender: Address) -> nat {
        if self.allowances@.contains_key(owner) && self.allowances@[owner]@.contains_key(
            spender,
        ) {
            u256_as_nat(self.allowances@[owner]@[spender])
        } else {
            0
        }
    }

    /// Mints shares to a holder; only the registered lending pool may.
    pub fn mint(&mut self, caller: Address, to: Address, amount: U256) -> (r: Result<
        (),
        LendingError,
    >)
        ensures
            match r {
                Ok(()) => caller == old(self).lending_pool && u256_as_nat(old(self).total_supply)
                    + u256_as_nat(amount) < two_pow_256() && old(self).spec_balance_of(to)
                    + u256_as_nat(amount) < two_pow_256() && final(self).same_config(old(self))
                    && u256_as_nat(final(self).total_assets) == u256_as_nat(old(self).total_assets)
                    && u256_as_nat(final(self).total_supply) == u256_as_nat(old(self).total_supply)
                    + u256_as_nat(amount) && final(self).balances@.contains_key(to) && u256_as_nat(
                    final(self).balances@[to],
                ) == old(self).spec_balance_of(to) + u256_as_nat(amount) && forall|h: Address|
                    h != to ==> final(self).spec_balance_of(h) == old(self).spec_balance_of(h),
                Err(e) => *final(self) == *old(self) && ((e == LendingError::Unauthorized && caller
                    != old(self).lending_pool) || (e == LendingError::MathOverflow && caller == old(self).lending_pool && (u256_as_nat(old(self).total_supply) + u256_as_nat(amount)
                    >= two_pow_256() || old(self).spec_balance_of(to) + u256_as_nat(amount)
                    >= two_pow_256()))),
            },
            r is Ok <==> (caller == old(self).lending_pool && u256_as_nat(old(self).total_supply)
                + u256_as_nat(amount) < two_pow_256() && old(self).spec_balance_of(to)
                + u256_as_nat(amount) < two_pow_256()),
    {
        if caller != self.lending_pool {
            return Err(LendingError::Unauthorized);
        }
        let new_supply = match u256_checked_add(&self.total_supply, &amount) {
            Some(v) => v,
            None => { return Err(LendingError::MathOverflow); },
        };
        let balance = self.balance_of(to);
        let new_balance = match u256_checked_add(&balance, &amount) {
            Some(v) => v,
            None => { return Err(LendingError::MathOverflow); },
        };
        self.total_supply = new_supply;
        self.balances.insert(to, new_balance);
        Ok(())
    }

    /// Burns shares from a holder; only the registered lending pool may,
    /// and the holder must own them.
    pub fn burn(&mut self, caller: Address, from: Address, amount: U256) -> (r: Result<
        (),
        LendingError,
    >)
        ensures
            match r {
                Ok(()) => caller == old(self).lending_pool && u256_as_nat(amount) <= old(self).spec_balance_of(from) && u256_as_nat(amount) <= u256_as_nat(
                    old(self).total_supply,
                ) && final(self).same_config(old(self)) && u256_as_nat(final(self).total_assets)
                    == u256_as_nat(old(self).total_assets) && u256_as_nat(final(self).total_supply)
                    == u256_as_nat(old(self).total_supply) - u256_as_nat(amount) && final(self).spec_balance_of(from) == old(self).spec_balance_of(from) - u256_as_nat(amount)
                    && forall|h: Address|
                    h != from ==> final(self).spec_balance_of(h) == old(self).spec_balance_of(h),
                Err(e) => *final(self) == *old(self) && ((e == LendingError::Unauthorized && caller
                    != old(self).lending_pool) || (e == LendingError::InsufficientBalance && caller
                    == old(self).lending_pool && old(self).spec_balance_of(from) < u256_as_nat(
                    amount,
                )) || (e == LendingError::MathUnderflow && caller == old(self).lending_pool
                    && u256_as_nat(amount) <= old(self).spec_balance_of(from) && u256_as_nat(
                    old(self).total_supply,
                ) < u256_as_nat(amount))),
            },
            r is Ok <==> (caller == old(self).lending_pool && u256_as_nat(amount) <= old(self).spec_balance_of(from) && u256_as_nat(amount) <= u256_as_nat(old(self).total_supply)),
    {
        if caller != self.lending_pool {
            return Err(LendingError::Unauthorized);
        }
        let balance = self.balance_of(from);
        if u256_lt(&balance, &amount) {
            return Err(LendingError::InsufficientBalance);
        }
        let new_supply = match crate::num::u256_checked_sub(&self.total_supply, &amount) {
            Some(v) => v,
            None => { return Err(LendingError::MathUnderflow); },
        };
        let new_balance = u256_sub(&balance, &amount);
        self.balances.insert(from, new_balance);
        self.total_supply = new_supply;
        Ok(())
    }

    /// Replaces the recorded pooled assets; only the registered lending
    /// pool may.
    pub fn update_total_assets(&mut self, caller: Address, new_total: U256) -> (r: Result<
        (),
        LendingError,
    >)
        ensures
            match r {
                Ok(()) => caller == old(self).lending_pool && final(self).same_config(old(self))
                    && final(self).balances@ == old(self).balances@ && u256_as_nat(
                    final(self).total_supply,
                ) == u256_as_nat(old(self).total_supply) && u256_as_nat(final(self).total_assets)
                    == u256_as_nat(new_total),
                Err(e) => *final(self) == *old(self) && e == LendingError::Unauthorized && caller
                    != old(self).lending_pool,
            },
            r is Ok <==> caller == old(self).lending_pool,
    {
        if caller != self.lending_pool {
            return Err(LendingError::Unauthorized);
        }
        self.total_assets = new_total;
        Ok(())
    }

    /// The recorded pooled assets.
    pub fn get_total_assets(&self) -> (r: U256)
        ensures
            u256_as_nat(r) == u256_as_nat(self.total_assets),
    {
        self.total_assets
    }

    /// Shares for a deposit of assets at the current exchange rate.
    pub fn convert_to_shares(&self, assets: U256) -> (r: U256)
        requires
            spec_convert_to_shares_fits(
                u256_as_nat(self.total_supply),
                u256_as_nat(self.total_assets),
                u256_as_nat(assets),
            ),
        ensures
            u256_as_nat(r) == spec_convert_to_shares(
                u256_as_nat(self.total_supply),
                u256_as_nat(self.total_assets),
                u256_as_nat(assets),
            ),
    {
        if u256_is_zero(&self.total_supply) || u256_is_zero(&self.total_assets) {
            return assets;
        }
        let scaled = u256_mul(&assets, &self.total_supply);
        u256_div(&scaled, &self.total_assets)
    }

    /// Assets for a redemption of shares at the current exchange rate.
    pub fn convert_to_assets(&self, shares: U256) -> (r: U256)
        requires
            spec_convert_to_assets_fits(
                u256_as_nat(self.total_supply),
                u256_as_nat(self.total_assets),
                u256_as_nat(shares),
            ),
        ensures
            u256_as_nat(r) == spec_convert_to_assets(
                u256_as_nat(self.total_supply),
                u256_as_nat(self.total_assets),
                u256_as_nat(shares),
            ),
    {
        if u256_is_zero(&self.total_supply) {
            return shares;
        }
        let scaled = u256_mul(&shares, &self.total_assets);
        u256_div(&scaled, &self.total_supply)
    }


    /// Moves shares from the caller to a recipient; fails when the caller
    /// holds too few, or when the recipient's grown balance would need
    /// more than 256 bits.
    pub fn transfer(&mut self, caller: Address, recipient: Address, amount: U256) -> (r: Result<
        (),
        LendingError,
    >)
        ensures
            match r {
                Ok(()) => {
                    &&& u256_as_nat(amount) <= old(self).spec_balance_of(caller)
                    &&& final(self).same_config(old(self))
                    &&& final(self).total_supply == old(self).total_supply
                    &&& final(self).total_assets == old(self).total_assets
                    &&& (recipient == caller ==> final(self).spec_balance_of(caller) == old(
                        self,
                    ).spec_balance_of(caller))
                    &&& (recipient != caller ==> final(self).spec_balance_of(caller) == old(
                        self,
                    ).spec_balance_of(caller) - u256_as_nat(amount) && final(self).spec_balance_of(
                        recipient,
                    ) == old(self).spec_balance_of(recipient) + u256_as_nat(amount))
                    &&& forall|h: Address|
                        h != caller && h != recipient ==> final(self).spec_balance_of(h) == old(
                            self,
                        ).spec_balance_of(h)
                },
                Err(e) => *final(self) == *old(self) && ((e == LendingError::InsufficientBalance
                    && old(self).spec_balance_of(caller) < u256_as_nat(amount)) || (e
                    == LendingError::MathOverflow && old(self).spec_balance_of(caller)
                    >= u256_as_nat(amount) && recipient != caller && old(self).spec_balance_of(
                    recipient,
                ) + u256_as_nat(amount) >= two_pow_256())),
            },
            r is Ok <==> (old(self).spec_balance_of(caller) >= u256_as_nat(amount) && (recipient
                == caller || old(self).spec_balance_of(recipient) + u256_as_nat(amount)
                < two_pow_256())),
    {
        self.transfer_internal(caller, recipient, amount)
    }

    /// Moves shares between two holders after every check passes; shared
    /// by the direct and the delegated transfer.
    fn transfer_internal(&mut self, from: Address, to: Address, amount: U256) -> (r: Result<
        (),
        LendingError,
    >)
        ensures
            match r {
                Ok(()) => {
                    &&& u256_as_nat(amount) <= old(self).spec_balance_of(from)
                    &&& final(self).same_config(old(self))
                    &&& final(self).total_supply == old(self).total_supply
                    &&& final(self).total_assets == old(self).total_assets
                    &&& (to == from ==> final(self).spec_balance_of(from) == old(
                        self,
                    ).spec_balance_of(from))
                    &&& (to != from ==> final(self).spec_balance_of(from) == old(
                        self,
                    ).spec_balance_of(from) - u256_as_nat(amount) && final(self).spec_balance_of(
                        to,
                    ) == old(self).spec_balance_of(to) + u256_as_nat(amount))
                    &&& forall|h: Address|
                        h != from && h != to ==> final(self).spec_balance_of(h) == old(
                            self,
                        ).spec_balance_of(h)
                },
                Err(e) => *final(self) == *old(self) && ((e == LendingError::InsufficientBalance
                    && old(self).spec_balance_of(from) < u256_as_nat(amount)) || (e
                    == LendingError::MathOverflow && old(self).spec_balance_of(from)
                    >= u256_as_nat(amount) && to != from && old(self).spec_balance_of(to)
                    + u256_as_nat(amount) >= two_pow_256())),
            },
            r is Ok <==> (old(self).spec_balance_of(from) >= u256_as_nat(amount) && (to == from
                || old(self).spec_balance_of(to) + u256_as_nat(amount) < two_pow_256())),
    {
        let from_balance = self.balance_of(from);
        if u256_lt(&from_balance, &amount) {
            return Err(LendingError::InsufficientBalance);
        }
        let new_from = u256_sub(&from_balance, &amount);
        if to == from {
            let restored = match u256_checked_add(&new_from, &amount) {
                Some(v) => v,
                None => unreached(),
            };
            self.balances.insert(from, restored);
            return Ok(());
        }
        let to_balance = self.balance_of(to);
        let new_to = match u256_checked_add(&to_balance, &amount) {
            Some(v) => v,
            None => {
                return Err(LendingError::MathOverflow);
            },
        };
        self.balances.insert(from, new_from);
        self.balances.insert(to, new_to);
        Ok(())
    }

    /// Grants a spender an allowance over the caller's shares.
    pub fn approve(&mut self, caller: Address, spender: Address, amount: U256)
        ensures
            final(self).spec_allowance(caller, spender) == u256_as_nat(amount),
            forall|o: Address, sp: Address|
                o != caller || sp != spender ==> final(self).spec_allowance(o, sp) == old(
                    self,
                ).spec_allowance(o, sp),
            final(self).balances@ == old(self).balances@,
            final(self).total_supply == old(self).total_supply,
            final(self).total_assets == old(self).total_assets,
            final(self).name@ == old(self).name@,
            final(self).symbol@ == old(self).symbol@,
            final(self).decimals == old(self).decimals,
            final(self).lending_pool == old(self).lending_pool,
            final(self).admin == old(self).admin,
            final(self).paused == old(self).paused,
    {
        let mut inner = match self.allowances.get(&caller) {
            Some(m) => m.clone(),
            None => HashMap::new(),
        };
        inner.insert(spender, amount);
        self.allowances.insert(caller, inner);
    }

    /// The shares a spender may move for an owner.
    pub fn allowance(&self, owner: Address, spender: Address) -> (r: U256)
        ensures
            u256_as_nat(r) == self.spec_allowance(owner, spender),
    {
        match self.allowances.get(&owner) {
            Some(m) => match m.get(&spender) {
                Some(v) => *v,
                None => u256_zero(),
            },
            None => u256_zero(),
        }
    }

    /// Moves shares from an owner to a recipient on the strength of the
    /// caller's allowance, which shrinks by the amount moved.
    pub fn transfer_from(
        &mut self,
        caller: Address,
        owner: Address,
        recipient: Address,
        amount: U256,
    ) -> (r: Result<(), LendingError>)
        ensures
            match r {
                Ok(()) => {
                    &&& u256_as_nat(amount) <= old(self).spec_allowance(owner, caller)
                    &&& u256_as_nat(amount) <= old(self).spec_balance_of(owner)
                    &&& final(self).spec_allowance(owner, caller) == old(self).spec_allowance(
                        owner,
                        caller,
                    ) - u256_as_nat(amount)
                    &&& (recipient == owner ==> final(self).spec_balance_of(owner) == old(
                        self,
                    ).spec_balance_of(owner))
                    &&& (recipient != owner ==> final(self).spec_balance_of(owner) == old(
                        self,
                    ).spec_balance_of(owner) - u256_as_nat(amount) && final(self).spec_balance_of(
                        recipient,
                    ) == old(self).spec_balance_of(recipient) + u256_as_nat(amount))
                    &&& forall|h: Address|
                        h != owner && h != recipient ==> final(self).spec_balance_of(h) == old(
                            self,
                        ).spec_balance_of(h)
                    &&& final(self).total_supply == old(self).total_supply
                    &&& final(self).total_assets == old(self).total_assets
                    &&& final(self).paused == old(self).paused
                    &&& final(self).lending_pool == old(self).lending_pool
                },
                Err(e) => *final(self) == *old(self) && ((e == LendingError::InsufficientBalance
                    && (old(self).spec_allowance(owner, caller) < u256_as_nat(amount) || old(
                    self,
                ).spec_balance_of(owner) < u256_as_nat(amount))) || (e
                    == LendingError::MathOverflow && old(self).spec_allowance(owner, caller)
                    >= u256_as_nat(amount) && old(self).spec_balance_of(owner) >= u256_as_nat(
                    amount,
                ) && recipient != owner && old(self).spec_balance_of(recipient) + u256_as_nat(
                    amount,
                ) >= two_pow_256())),
            },
            r is Ok <==> (old(self).spec_allowance(owner, caller) >= u256_as_nat(amount) && old(
                self,
            ).spec_balance_of(owner) >= u256_as_nat(amount) && (recipient == owner || old(
                self,
            ).spec_balance_of(recipient) + u256_as_nat(amount) < two_pow_256())),
    {
        let current_allowance = self.allowance(owner, caller);
        if u256_lt(&current_allowance, &amount) {
            return Err(LendingError::InsufficientBalance);
        }
        let owner_balance = self.balance_of(owner);
        if u256_lt(&owner_balance, &amount) {
            return Err(LendingError::InsufficientBalance);
        }
        if recipient != owner {
            let to_balance = self.balance_of(recipient);
            if u256_checked_add(&to_balance, &amount).is_none() {
                return Err(LendingError::MathOverflow);
            }
        }
        let reduced = u256_sub(&current_allowance, &amount);
        let mut inner = match self.allowances.get(&owner) {
            Some(m) => m.clone(),
            None => HashMap::new(),
        };
        inner.insert(caller, reduced);
        self.allowances.insert(owner, inner);
        match self.transfer_internal(owner, recipient, amount) {
            Ok(()) => Ok(()),
            Err(_) => unreached(),
        }
    }

    /// Pauses the vault; only the admin may.
    pub fn pause(&mut self, caller: Address) -> (r: Result<(), LendingError>)
        ensures
            match r {
                Ok(()) => caller == old(self).admin && *final(self) == (AectoVault {
                    paused: true,
                    ..*old(self)
                }),
                Err(e) => *final(self) == *old(self) && e == LendingError::Unauthorized && caller
                    != old(self).admin,
            },
            r is Ok <==> caller == old(self).admin,
    {
        if caller != self.admin {
            return Err(LendingError::Unauthorized);
        }
        self.paused = true;
        Ok(())
    }

    /// Unpauses the vault; only the admin may.
    pub fn unpause(&mut self, caller: Address) -> (r: Result<(), LendingError>)
        ensures
            match r {
                Ok(()) => caller == old(self).admin && *final(self) == (AectoVault {
                    paused: false,
                    ..*old(self)
                }),
                Err(e) => *final(self) == *old(self) && e == LendingError::Unauthorized && caller
                    != old(self).admin,
            },
            r is Ok <==> caller == old(self).admin,
    {
        if caller != self.admin {
            return Err(LendingError::Unauthorized);
        }
        self.paused = false;
        Ok(())
    }

    /// Whether the vault is paused.
    pub fn is_paused(&self) -> (r: bool)
        ensures
            r == self.paused,
    {
        self.paused
    }
}

} // verus!
