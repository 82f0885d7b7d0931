//! 256-bit unsigned arithmetic over `casper_types::U256`, modeled in
//! specifications as unbounded natural numbers via the little-endian limb
//! interpretation.
//!
//! Only the four checked arithmetic operations of the outside crate are
//! trusted; construction, comparison and the no-overflow variants are
//! verified against the limb model.

use vstd::prelude::*;
use vstd::arithmetic::div_mod::lemma_fundamental_div_mod_converse;
use vstd::pervasive::unreached;
use casper_types::U256;

verus! {

/// `casper_types::U256` is the `uint` crate's `construct_uint!` type:
/// a tuple struct around four little-endian 64-bit limbs.
#[verifier::external_type_specification]
pub struct ExU256(U256);

/// `2^64`.
#[verifier::inline]
pub open spec fn two_pow_64() -> nat {
    0x1_0000_0000_0000_0000
}

/// `2^128`.
#[verifier::inline]
pub open spec fn two_pow_128() -> nat {
    two_pow_64() * two_pow_64()
}

/// `2^192`.
#[verifier::inline]
pub open spec fn two_pow_192() -> nat {
    two_pow_128() * two_pow_64()
}

/// `2^256`, one past the largest representable value.
#[verifier::inline]
pub open spec fn two_pow_256() -> nat {
    two_pow_128() * two_pow_128()
}

/// The unbounded natural number a `U256` stands for: its four 64-bit limbs
/// read in little-endian order.
pub open spec fn u256_as_nat(v: U256) -> nat {
    (v.0[0] as nat) + (v.0[1] as nat) * two_pow_64() + (v.0[2] as nat) * two_pow_128() + (
    v.0[3] as nat) * two_pow_192()
}

/// Every `U256` value lies below `2^256`.
pub broadcast proof fn lemma_u256_as_nat_bound(v: U256)
    ensures
        #[trigger] u256_as_nat(v) < two_pow_256(),
{
    let p = two_pow_64();
    let q = two_pow_128();
    let r = two_pow_192();
    let s = two_pow_256();
    assert(q == p * p);
    assert(r == q * p);
    assert(s == q * q);
    assert((v.0[0] as nat) + (v.0[1] as nat) * p + (v.0[2] as nat) * q + (v.0[3] as nat) * r
        < s) by (nonlinear_arith)
        requires
            p == 0x1_0000_0000_0000_0000,
            q == p * p,
            r == q * p,
            s == q * q,
            v.0[0] < p,
            v.0[1] < p,
            v.0[2] < p,
            v.0[3] < p,
    ;
}

/// The limbs of a value are its base-`2^64` digits, so two values standing
/// for the same natural number have the same limbs.
pub proof fn lemma_u256_as_nat_injective(a: U256, b: U256)
    requires
        u256_as_nat(a) == u256_as_nat(b),
    ensures
        a.0[0] == b.0[0],
        a.0[1] == b.0[1],
        a.0[2] == b.0[2],
        a.0[3] == b.0[3],
{
    lemma_u256_limbs_are_digits(a);
    lemma_u256_limbs_are_digits(b);
}

/// Each limb equals the corresponding base-`2^64` digit of the value.
proof fn lemma_u256_limbs_are_digits(v: U256)
    ensures
        v.0[0] == u256_as_nat(v) % two_pow_64(),
        v.0[1] == (u256_as_nat(v) / two_pow_64()) % two_pow_64(),
        v.0[2] == ((u256_as_nat(v) / two_pow_64()) / two_pow_64()) % two_pow_64(),
        v.0[3] == ((u256_as_nat(v) / two_pow_64()) / two_pow_64()) / two_pow_64(),
{
    let p = two_pow_64() as int;
    let n = u256_as_nat(v) as int;
    let d0 = v.0[0] as int;
    let d1 = v.0[1] as int;
    let d2 = v.0[2] as int;
    let d3 = v.0[3] as int;
    assert(n == d0 + (d1 + d2 * p + d3 * (p * p)) * p) by (nonlinear_arith)
        requires
            n == d0 + d1 * p + d2 * (p * p) + d3 * ((p * p) * p),
    ;
    lemma_fundamental_div_mod_converse(n, p, d1 + d2 * p + d3 * (p * p), d0);
    let n1 = d1 + d2 * p + d3 * (p * p);
    assert(n1 == d1 + (d2 + d3 * p) * p) by (nonlinear_arith)
        requires
            n1 == d1 + d2 * p + d3 * (p * p),
    ;
    lemma_fundamental_div_mod_converse(n1, p, d2 + d3 * p, d1);
    lemma_fundamental_div_mod_converse(d2 + d3 * p, p, d3, d2);
}

/// A strictly larger most-significant prefix means a strictly larger value.
proof fn lemma_u256_lt_from_limbs(a: U256, b: U256, i: int)
    requires
        0 <= i < 4,
        a.0[i] < b.0[i],
        forall|j: int| i < j < 4 ==> a.0[j] == b.0[j],
    ensures
        u256_as_nat(a) < u256_as_nat(b),
{
    let p = two_pow_64();
    let q = two_pow_128();
    let r = two_pow_192();
    assert(q == p * p);
    assert(r == q * p);
    let a0 = a.0[0] as nat;
    let a1 = a.0[1] as nat;
    let a2 = a.0[2] as nat;
    let a3 = a.0[3] as nat;
    let b0 = b.0[0] as nat;
    let b1 = b.0[1] as nat;
    let b2 = b.0[2] as nat;
    let b3 = b.0[3] as nat;
    assert(a0 + a1 * p + a2 * q + a3 * r < b0 + b1 * p + b2 * q + b3 * r) by (nonlinear_arith)
        requires
            p == 0x1_0000_0000_0000_0000,
            q == p * p,
            r == q * p,
            a0 < p && a1 < p && a2 < p && a3 < p,
            b0 < p && b1 < p && b2 < p && b3 < p,
            (i == 3 && a3 < b3) || (i == 2 && a3 == b3 && a2 < b2) || (i == 1 && a3 == b3 && a2
                == b2 && a1 < b1) || (i == 0 && a3 == b3 && a2 == b2 && a1 == b1 && a0 < b0),
            0 <= i < 4,
    ;
}

/// Builds a value from its four little-endian limbs.
pub fn u256_from_limbs(l0: u64, l1: u64, l2: u64, l3: u64) -> (r: U256)
    ensures
        r.0[0] == l0,
        r.0[1] == l1,
        r.0[2] == l2,
        r.0[3] == l3,
{
    let arr = [l0, l1, l2, l3];
    assert(arr@ =~= seq![l0, l1, l2, l3]);
    assert(arr[0] == l0 && arr[1] == l1 && arr[2] == l2 && arr[3] == l3);
    U256(arr)
}

/// The all-zero limbs stand for zero.
pub fn u256_zero() -> (r: U256)
    ensures
        u256_as_nat(r) == 0,
{
    u256_from_limbs(0u64, 0u64, 0u64, 0u64)
}

/// The value one.
pub fn u256_one() -> (r: U256)
    ensures
        u256_as_nat(r) == 1,
{
    u256_from_limbs(1u64, 0u64, 0u64, 0u64)
}

/// The largest representable value, `2^256 - 1`.
pub fn u256_max_value() -> (r: U256)
    ensures
        u256_as_nat(r) == two_pow_256() - 1,
{
    let r = u256_from_limbs(u64::MAX, u64::MAX, u64::MAX, u64::MAX);
    proof {
        let p = two_pow_64();
        let q = two_pow_128();
        let w = two_pow_192();
        let s = two_pow_256();
        assert((p - 1) + (p - 1) * p + (p - 1) * q + (p - 1) * w == s - 1) by (nonlinear_arith)
            requires
                p == 0x1_0000_0000_0000_0000,
                q == p * p,
                w == q * p,
                s == q * q,
        ;
    }
    r
}

/// Embeds a `u64` as a single-limb value.
pub fn u256_from_u64(x: u64) -> (r: U256)
    ensures
        u256_as_nat(r) == x,
{
    u256_from_limbs(x, 0u64, 0u64, 0u64)
}

/// Numeric equality, decided limb by limb.
pub fn u256_eq(a: &U256, b: &U256) -> (r: bool)
    ensures
        r == (u256_as_nat(*a) == u256_as_nat(*b)),
{
    let r = a.0[0] == b.0[0] && a.0[1] == b.0[1] && a.0[2] == b.0[2] && a.0[3] == b.0[3];
    proof {
        if u256_as_nat(*a) == u256_as_nat(*b) {
            lemma_u256_as_nat_injective(*a, *b);
        }
    }
    r
}

/// A value is zero exactly when all its limbs are zero.
pub proof fn lemma_u256_as_nat_zero(v: U256)
    ensures
        (u256_as_nat(v) == 0) <==> (v.0[0] == 0 && v.0[1] == 0 && v.0[2] == 0 && v.0[3] == 0),
{
    let p = two_pow_64();
    let q = two_pow_128();
    let w = two_pow_192();
    let d0 = v.0[0] as nat;
    let d1 = v.0[1] as nat;
    let d2 = v.0[2] as nat;
    let d3 = v.0[3] as nat;
    assert((d0 + d1 * p + d2 * q + d3 * w == 0) <==> (d0 == 0 && d1 == 0 && d2 == 0 && d3
        == 0)) by (nonlinear_arith)
        requires
            p == 0x1_0000_0000_0000_0000,
            q == p * p,
            w == q * p,
    ;
}

/// Whether a value is zero.
pub fn u256_is_zero(a: &U256) -> (r: bool)
    ensures
        r == (u256_as_nat(*a) == 0),
{
    proof {
        lemma_u256_as_nat_zero(*a);
    }
    a.0[0] == 0 && a.0[1] == 0 && a.0[2] == 0 && a.0[3] == 0
}

/// Strict numeric order, decided from the most significant limb down.
pub fn u256_lt(a: &U256, b: &U256) -> (r: bool)
    ensures
        r == (u256_as_nat(*a) < u256_as_nat(*b)),
{
    proof {
        if u256_as_nat(*a) == u256_as_nat(*b) {
            lemma_u256_as_nat_injective(*a, *b);
        }
    }
    if a.0[3] != b.0[3] {
        proof {
            if a.0[3] < b.0[3] {
                lemma_u256_lt_from_limbs(*a, *b, 3);
            } else {
                lemma_u256_lt_from_limbs(*b, *a, 3);
            }
        }
        a.0[3] < b.0[3]
    } else if a.0[2] != b.0[2] {
        proof {
            if a.0[2] < b.0[2] {
                lemma_u256_lt_from_limbs(*a, *b, 2);
            } else {
                lemma_u256_lt_from_limbs(*b, *a, 2);
            }
        }
        a.0[2] < b.0[2]
    } else if a.0[1] != b.0[1] {
        proof {
            if a.0[1] < b.0[1] {
                lemma_u256_lt_from_limbs(*a, *b, 1);
            } else {
                lemma_u256_lt_from_limbs(*b, *a, 1);
            }
        }
        a.0[1] < b.0[1]
    } else {
        proof {
            if a.0[0] < b.0[0] {
                lemma_u256_lt_from_limbs(*a, *b, 0);
            } else if b.0[0] < a.0[0] {
                lemma_u256_lt_from_limbs(*b, *a, 0);
            }
        }
        a.0[0] < b.0[0]
    }
}

/// Non-strict numeric order.
pub fn u256_le(a: &U256, b: &U256) -> (r: bool)
    ensures
        r == (u256_as_nat(*a) <= u256_as_nat(*b)),
{
    !u256_lt(b, a)
}

/// Relies on `casper_types::U256::checked_add` (the `uint` crate's
/// `construct_uint!`): the exact sum when it fits in 256 bits, `None`
/// otherwise.
#[verifier::external_body]
pub fn u256_checked_add(a: &U256, b: &U256) -> (r: Option<U256>)
    ensures
        match r {
            Some(v) => u256_as_nat(v) == u256_as_nat(*a) + u256_as_nat(*b),
            None => u256_as_nat(*a) + u256_as_nat(*b) >= two_pow_256(),
        },
        r is Some <==> u256_as_nat(*a) + u256_as_nat(*b) < two_pow_256(),
{
    a.checked_add(*b)
}

/// Relies on `casper_types::U256::checked_sub`: the exact difference when
/// the subtrahend does not exceed the minuend, `None` otherwise.
#[verifier::external_body]
pub fn u256_checked_sub(a: &U256, b: &U256) -> (r: Option<U256>)
    ensures
        match r {
            Some(v) => u256_as_nat(v) == u256_as_nat(*a) - u256_as_nat(*b),
            None => u256_as_nat(*b) > u256_as_nat(*a),
        },
        r is Some <==> u256_as_nat(*b) <= u256_as_nat(*a),
{
    a.checked_sub(*b)
}

/// Relies on `casper_types::U256::checked_mul`: the exact product when it
/// fits in 256 bits, `None` otherwise.
#[verifier::external_body]
pub fn u256_checked_mul(a: &U256, b: &U256) -> (r: Option<U256>)
    ensures
        match r {
            Some(v) => u256_as_nat(v) == u256_as_nat(*a) * u256_as_nat(*b),
            None => u256_as_nat(*a) * u256_as_nat(*b) >= two_pow_256(),
        },
        r is Some <==> u256_as_nat(*a) * u256_as_nat(*b) < two_pow_256(),
{
    a.checked_mul(*b)
}

/// Relies on `casper_types::U256::checked_div`: the quotient rounded toward
/// zero, `None` exactly on a zero divisor.
#[verifier::external_body]
pub fn u256_checked_div(a: &U256, b: &U256) -> (r: Option<U256>)
    ensures
        match r {
            Some(v) => u256_as_nat(v) == u256_as_nat(*a) / u256_as_nat(*b),
            None => u256_as_nat(*b) == 0,
        },
        r is Some <==> u256_as_nat(*b) > 0,
{
    a.checked_div(*b)
}

/// Addition under a proved absence of overflow.
pub fn u256_add(a: &U256, b: &U256) -> (r: U256)
    requires
        u256_as_nat(*a) + u256_as_nat(*b) < two_pow_256(),
    ensures
        u256_as_nat(r) == u256_as_nat(*a) + u256_as_nat(*b),
{
    match u256_checked_add(a, b) {
        Some(v) => v,
        None => unreached(),
    }
}

/// Subtraction under a proved absence of underflow.
pub fn u256_sub(a: &U256, b: &U256) -> (r: U256)
    requires
        u256_as_nat(*b) <= u256_as_nat(*a),
    ensures
        u256_as_nat(r) == u256_as_nat(*a) - u256_as_nat(*b),
{
    match u256_checked_sub(a, b) {
        Some(v) => v,
        None => unreached(),
    }
}

/// Multiplication under a proved absence of overflow.
pub fn u256_mul(a: &U256, b: &U256) -> (r: U256)
    requires
        u256_as_nat(*a) * u256_as_nat(*b) < two_pow_256(),
    ensures
        u256_as_nat(r) == u256_as_nat(*a) * u256_as_nat(*b),
{
    match u256_checked_mul(a, b) {
        Some(v) => v,
        None => unreached(),
    }
}

/// Division by a proved nonzero divisor, rounding toward zero.
pub fn u256_div(a: &U256, b: &U256) -> (r: U256)
    requires
        u256_as_nat(*b) > 0,
    ensures
        u256_as_nat(r) == u256_as_nat(*a) / u256_as_nat(*b),
{
    match u256_checked_div(a, b) {
        Some(v) => v,
        None => unreached(),
    }
}

} // verus!
