//! A collateralized lending protocol core: pool ledger, collateral and
//! health-factor accounting, a utilization-based interest-rate curve,
//! liquidation math, and pooled-share vault accounting, with fixed-point
//! arithmetic over 256-bit integers.
//!
//! The host environment (caller identity, block time, token transfers,
//! event delivery) stays outside: entry points take the caller and the
//! current time as arguments, record events in a log, and report every
//! failure as a typed error with the whole state left unchanged.

use vstd::prelude::*;

pub mod aecto_vault;
pub mod collateral_manager;
pub mod deploy;
pub mod errors;
pub mod events;
pub mod interest_rate;
pub mod lending_pool;
pub mod liquidation;
pub mod math;
pub mod num;
pub mod price_oracle;

verus! {

/// The identity of a principal or of an asset contract.
pub type Address = u64;

/// The fixed-point scale: `10^18` raw units stand for the ratio `1.0`.
pub const SCALE_U64: u64 = 1_000_000_000_000_000_000;

/// The fixed-point scale as a spec-level natural number.
pub open spec fn spec_scale() -> nat {
    1_000_000_000_000_000_000
}

/// The fixed-point scale as a 256-bit value.
pub fn scale_u256() -> (r: casper_types::U256)
    ensures
        num::u256_as_nat(r) == spec_scale(),
{
    num::u256_from_u64(SCALE_U64)
}

} // verus!
