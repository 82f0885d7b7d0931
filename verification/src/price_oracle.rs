//! Admin-fed price feeds with staleness rejection, converting asset
//! amounts to and from the common valuation unit.

use vstd::prelude::*;
use std::collections::HashMap;
use casper_types::U256;
use crate::Address;
use crate::errors::LendingError;
use crate::num::{two_pow_256, u256_as_nat, u256_div, u256_is_zero};
use crate::{scale_u256, spec_scale};

verus! {

broadcast use crate::num::lemma_u256_as_nat_bound, vstd::std_specs::hash::group_hash_axioms;

/// The feed for one asset: its price in the valuation unit, scaled by
/// `10^18`, with the time it was set and an activity flag.
#[derive(Clone, Copy, Debug, PartialEq)]
pub struct PriceFeed {
    pub asset: Address,
    pub price: U256,
    pub last_update: u64,
    pub is_active: bool,
}

/// The price oracle: one feed per asset, admin-managed, read under a
/// staleness bound.
pub struct PriceOracle {
    /// Feeds by asset.
    pub price_feeds: HashMap<Address, PriceFeed>,
    /// The principal allowed to manage feeds.
    pub admin: Address,
    /// How old a feed may grow, in seconds, before reads reject it.
    pub max_staleness: u64,
}

impl PriceOracle {
    /// Every stored feed names a positive price.
    pub open spec fn wf(&self) -> bool {
        forall|a: Address| #[trigger]
            self.price_feeds@.contains_key(a) ==> u256_as_nat(self.price_feeds@[a].price) > 0
    }

    /// Why reading this asset's price now would fail, if it would: a
    /// missing or disabled feed, or one older than the staleness bound.
    pub open spec fn spec_get_price_err(&self, asset: Address, now: u64) -> Option<LendingError> {
        if !self.price_feeds@.contains_key(asset) {
            Some(LendingError::PriceFeedNotAvailable)
        } else if !self.price_feeds@[asset].is_active {
            Some(LendingError::PriceFeedNotAvailable)
        } else if now > self.price_feeds@[asset].last_update + self.max_staleness {
            Some(LendingError::InvalidPrice)
        } else {
            None
        }
    }

    /// The stored price of an asset, as a natural number.
    pub open spec fn spec_price(&self, asset: Address) -> nat {
        u256_as_nat(self.price_feeds@[asset].price)
    }

    /// The value of an asset amount: `amount * price / scale`, rounded
    /// toward zero.
    pub open spec fn spec_asset_value(&self, asset: Address, amount: nat) -> nat {
        (amount * self.spec_price(asset)) / spec_scale()
    }

    /// The asset amount worth a value: `value * scale / price`, rounded
    /// toward zero.
    pub open spec fn spec_asset_amount(&self, asset: Address, value: nat) -> nat {
        (value * spec_scale()) / self.spec_price(asset)
    }

    /// Creates the oracle with an hour of allowed staleness and no feeds.
    pub fn init(caller: Address) -> (s: Self)
        ensures
            s.admin == caller,
            s.max_staleness == 3600u64,
            s.price_feeds@ == Map::<Address, PriceFeed>::empty(),
            s.wf(),
    {
        PriceOracle { price_feeds: HashMap::new(), admin: caller, max_staleness: 3600 }
    }

    /// Sets an asset's price, marking the feed fresh and active; only the
    /// admin may, and zero prices are rejected.
    pub fn set_price(&mut self, caller: Address, asset: Address, price: U256, now: u64) -> (r:
        Result<(), LendingError>)
        requires
            old(self).wf(),
        ensures
            final(self).wf(),
            final(self).admin == old(self).admin,
            final(self).max_staleness == old(self).max_staleness,
            match r {
                Ok(()) => caller == old(self).admin && u256_as_nat(price) > 0
                    && final(self).price_feeds@ == old(self).price_feeds@.insert(
                    asset,
                    (PriceFeed { asset, price, last_update: now, is_active: true }),
                ),
                Err(e) => *final(self) == *old(self) && ((e == LendingError::Unauthorized && caller
                    != old(self).admin) || (e == LendingError::InvalidPrice && caller
                    == old(self).admin && u256_as_nat(price) == 0)),
            },
            r is Ok <==> (caller == old(self).admin && u256_as_nat(price) > 0),
    {
        if caller != self.admin {
            return Err(LendingError::Unauthorized);
        }
        if u256_is_zero(&price) {
            return Err(LendingError::InvalidPrice);
        }
        let feed = PriceFeed { asset, price, last_update: now, is_active: true };
        self.price_feeds.insert(asset, feed);
        Ok(())
    }

    /// The current price of an asset; fails on a missing or disabled feed,
    /// and on one older than the staleness bound.
    pub fn get_price(&self, asset: Address, now: u64) -> (r: Result<U256, LendingError>)
        ensures
            match r {
                Ok(v) => self.spec_get_price_err(asset, now) is None && u256_as_nat(v)
                    == self.spec_price(asset),
                Err(e) => self.spec_get_price_err(asset, now) == Some(e),
            },
    {
        let feed = match self.price_feeds.get(&asset) {
            Some(f) => *f,
            None => { return Err(LendingError::PriceFeedNotAvailable); },
        };
        if !feed.is_active {
            return Err(LendingError::PriceFeedNotAvailable);
        }
        if (now as u128) > (feed.last_update as u128) + (self.max_staleness as u128) {
            return Err(LendingError::InvalidPrice);
        }
        Ok(feed.price)
    }

    /// The stored price of an asset with the staleness check left out;
    /// fails only on a missing feed.
    pub fn get_price_unchecked(&self, asset: Address) -> (r: Result<U256, LendingError>)
        ensures
            match r {
                Ok(v) => self.price_feeds@.contains_key(asset) && u256_as_nat(v)
                    == self.spec_price(asset),
                Err(e) => e == LendingError::PriceFeedNotAvailable
                    && !self.price_feeds@.contains_key(asset),
            },
    {
        match self.price_feeds.get(&asset) {
            Some(f) => Ok(f.price),
            None => Err(LendingError::PriceFeedNotAvailable),
        }
    }

    /// The value of an asset amount in the valuation unit.
    pub fn get_asset_value(&self, asset: Address, amount: U256, now: u64) -> (r: Result<
        U256,
        LendingError,
    >)
        ensures
            match r {
                Ok(v) => self.spec_get_price_err(asset, now) is None && u256_as_nat(amount)
                    * self.spec_price(asset) < two_pow_256() && u256_as_nat(v)
                    == self.spec_asset_value(asset, u256_as_nat(amount)),
                Err(e) => (self.spec_get_price_err(asset, now) == Some(e)) || (
                self.spec_get_price_err(asset, now) is None && e == LendingError::MathOverflow
                    && u256_as_nat(amount) * self.spec_price(asset) >= two_pow_256()),
            },
            r is Ok <==> (self.spec_get_price_err(asset, now) is None && u256_as_nat(amount)
                * self.spec_price(asset) < two_pow_256()),
    {
        let price = match self.get_price(asset, now) {
            Ok(p) => p,
            Err(e) => { return Err(e); },
        };
        let scaled = match crate::num::u256_checked_mul(&amount, &price) {
            Some(v) => v,
            None => { return Err(LendingError::MathOverflow); },
        };
        let scale = scale_u256();
        Ok(u256_div(&scaled, &scale))
    }

    /// The asset amount worth a value in the valuation unit.
    pub fn get_asset_amount(&self, asset: Address, value: U256, now: u64) -> (r: Result<
        U256,
        LendingError,
    >)
        requires
            self.wf(),
        ensures
            match r {
                Ok(v) => self.spec_get_price_err(asset, now) is None && u256_as_nat(value)
                    * spec_scale() < two_pow_256() && u256_as_nat(v) == self.spec_asset_amount(
                    asset,
                    u256_as_nat(value),
                ),
                Err(e) => (self.spec_get_price_err(asset, now) == Some(e)) || (
                self.spec_get_price_err(asset, now) is None && e == LendingError::MathOverflow
                    && u256_as_nat(value) * spec_scale() >= two_pow_256()),
            },
            r is Ok <==> (self.spec_get_price_err(asset, now) is None && u256_as_nat(value)
                * spec_scale() < two_pow_256()),
    {
        let price = match self.get_price(asset, now) {
            Ok(p) => p,
            Err(e) => { return Err(e); },
        };
        let scale = scale_u256();
        let scaled = match crate::num::u256_checked_mul(&value, &scale) {
            Some(v) => v,
            None => { return Err(LendingError::MathOverflow); },
        };
        Ok(u256_div(&scaled, &price))
    }

    /// Disables an asset's feed; only the admin may, and the feed must
    /// exist.
    pub fn disable_feed(&mut self, caller: Address, asset: Address) -> (r: Result<
        (),
        LendingError,
    >)
        requires
            old(self).wf(),
        ensures
            final(self).wf(),
            final(self).admin == old(self).admin,
            final(self).max_staleness == old(self).max_staleness,
            match r {
                Ok(()) => caller == old(self).admin && old(self).price_feeds@.contains_key(asset)
                    && final(self).price_feeds@ == old(self).price_feeds@.insert(
                    asset,
                    (PriceFeed { is_active: false, ..old(self).price_feeds@[asset] }),
                ),
                Err(e) => *final(self) == *old(self) && ((e == LendingError::Unauthorized && caller
                    != old(self).admin) || (e == LendingError::PriceFeedNotAvailable && caller
                    == old(self).admin && !old(self).price_feeds@.contains_key(asset))),
            },
            r is Ok <==> (caller == old(self).admin && old(self).price_feeds@.contains_key(asset)),
    {
        if caller != self.admin {
            return Err(LendingError::Unauthorized);
        }
        let feed = match self.price_feeds.get(&asset) {
            Some(f) => *f,
            None => { return Err(LendingError::PriceFeedNotAvailable); },
        };
        let updated = PriceFeed { is_active: false, ..feed };
        self.price_feeds.insert(asset, updated);
        Ok(())
    }

    /// Enables an asset's feed; only the admin may, and the feed must
    /// exist.
    pub fn enable_feed(&mut self, caller: Address, asset: Address) -> (r: Result<
        (),
        LendingError,
    >)
        requires
            old(self).wf(),
        ensures
            final(self).wf(),
            final(self).admin == old(self).admin,
            final(self).max_staleness == old(self).max_staleness,
            match r {
                Ok(()) => caller == old(self).admin && old(self).price_feeds@.contains_key(asset)
                    && final(self).price_feeds@ == old(self).price_feeds@.insert(
                    asset,
                    (PriceFeed { is_active: true, ..old(self).price_feeds@[asset] }),
                ),
                Err(e) => *final(self) == *old(self) && ((e == LendingError::Unauthorized && caller
                    != old(self).admin) || (e == LendingError::PriceFeedNotAvailable && caller
                    == old(self).admin && !old(self).price_feeds@.contains_key(asset))),
            },
            r is Ok <==> (caller == old(self).admin && old(self).price_feeds@.contains_key(asset)),
    {
        if caller != self.admin {
            return Err(LendingError::Unauthorized);
        }
        let feed = match self.price_feeds.get(&asset) {
            Some(f) => *f,
            None => { return Err(LendingError::PriceFeedNotAvailable); },
        };
        let updated = PriceFeed { is_active: true, ..feed };
        self.price_feeds.insert(asset, updated);
        Ok(())
    }

    /// Replaces the staleness bound; only the admin may.
    pub fn set_max_staleness(&mut self, caller: Address, seconds: u64) -> (r: Result<
        (),
        LendingError,
    >)
        requires
            old(self).wf(),
        ensures
            final(self).wf(),
            final(self).admin == old(self).admin,
            final(self).price_feeds@ == old(self).price_feeds@,
            match r {
                Ok(()) => caller == old(self).admin && final(self).max_staleness == seconds,
                Err(e) => *final(self) == *old(self) && e == LendingError::Unauthorized && caller
                    != old(self).admin,
            },
            r is Ok <==> caller == old(self).admin,
    {
        if caller != self.admin {
            return Err(LendingError::Unauthorized);
        }
        self.max_staleness = seconds;
        Ok(())
    }

    /// The admin's identity.
    pub fn get_admin(&self) -> (r: Address)
        ensures
            r == self.admin,
    {
        self.admin
    }
}

} // verus!
