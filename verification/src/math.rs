//! Safe 256-bit math and constant-product market-maker formulas.

use vstd::prelude::*;
use vstd::arithmetic::div_mod::lemma_fundamental_div_mod;
use vstd::pervasive::unreached;
use casper_types::U256;
use crate::errors::DexError;
use crate::num::{
    two_pow_256, u256_add, u256_as_nat, u256_checked_add, u256_checked_mul, u256_checked_sub,
    u256_checked_div, u256_div, u256_from_u64, u256_is_zero, u256_lt, u256_one, u256_zero,
};

verus! {

broadcast use crate::num::lemma_u256_as_nat_bound;

/// Liquidity locked forever on the first provision, preventing division by
/// zero in later share computations.
pub const MINIMUM_LIQUIDITY: u128 = 1000;

/// Fee denominator (a 0.3% fee is 3/1000).
pub const FEE_DENOMINATOR: u128 = 1000;

/// Fee numerator (0.3% fee).
pub const FEE_NUMERATOR: u128 = 3;

/// Checked 256-bit arithmetic returning a typed error instead of wrapping
/// or panicking.
pub struct SafeMath;

impl SafeMath {
    /// Addition; fails with `Overflow` exactly when the sum needs more than
    /// 256 bits.
    pub fn add(a: U256, b: U256) -> (r: Result<U256, DexError>)
        ensures
            match r {
                Ok(v) => u256_as_nat(v) == u256_as_nat(a) + u256_as_nat(b),
                Err(e) => e == DexError::Overflow,
            },
            r is Ok <==> u256_as_nat(a) + u256_as_nat(b) < two_pow_256(),
    {
        match u256_checked_add(&a, &b) {
            Some(v) => Ok(v),
            None => Err(DexError::Overflow),
        }
    }

    /// Subtraction; fails with `Underflow` exactly when the subtrahend
    /// exceeds the minuend.
    pub fn sub(a: U256, b: U256) -> (r: Result<U256, DexError>)
        ensures
            match r {
                Ok(v) => u256_as_nat(v) == u256_as_nat(a) - u256_as_nat(b),
                Err(e) => e == DexError::Underflow,
            },
            r is Ok <==> u256_as_nat(b) <= u256_as_nat(a),
    {
        match u256_checked_sub(&a, &b) {
            Some(v) => Ok(v),
            None => Err(DexError::Underflow),
        }
    }

    /// Multiplication; fails with `Overflow` exactly when the product needs
    /// more than 256 bits.
    pub fn mul(a: U256, b: U256) -> (r: Result<U256, DexError>)
        ensures
            match r {
                Ok(v) => u256_as_nat(v) == u256_as_nat(a) * u256_as_nat(b),
                Err(e) => e == DexError::Overflow,
            },
            r is Ok <==> u256_as_nat(a) * u256_as_nat(b) < two_pow_256(),
    {
        match u256_checked_mul(&a, &b) {
            Some(v) => Ok(v),
            None => Err(DexError::Overflow),
        }
    }

    /// Division rounding toward zero; fails with `DivisionByZero` exactly on
    /// a zero divisor.
    pub fn div(a: U256, b: U256) -> (r: Result<U256, DexError>)
        ensures
            match r {
                Ok(v) => u256_as_nat(v) == u256_as_nat(a) / u256_as_nat(b),
                Err(e) => e == DexError::DivisionByZero,
            },
            r is Ok <==> u256_as_nat(b) > 0,
    {
        match u256_checked_div(&a, &b) {
            Some(v) => Ok(v),
            None => Err(DexError::DivisionByZero),
        }
    }

    /// The integer square root, computed by Newton's method from above.
    pub fn sqrt(y: U256) -> (r: U256)
        ensures
            u256_as_nat(r) * u256_as_nat(r) <= u256_as_nat(y),
            u256_as_nat(y) < (u256_as_nat(r) + 1) * (u256_as_nat(r) + 1),
    {
        let three = u256_from_u64(3);
        if u256_lt(&three, &y) {
            let ghost n = u256_as_nat(y);
            let two = u256_from_u64(2);
            let mut z = y;
            proof {
                lemma_fundamental_div_mod(n as int, 2);
            }
            let half = u256_div(&y, &two);
            let mut x = u256_add(&half, &u256_one());
            proof {
                // The first approximation lies strictly between sqrt and y.
                assert((u256_as_nat(x) + 1) * (u256_as_nat(x) + 1) > n) by (nonlinear_arith)
                    requires
                        u256_as_nat(x) == n / 2 + 1,
                        n == 2 * (n / 2) + n % 2,
                        0 <= n % 2 < 2,
                ;
                assert((n + 1) * (n + 1) > n) by (nonlinear_arith);
            }
            while u256_lt(&x, &z)
                invariant
                    n == u256_as_nat(y),
                    u256_as_nat(y) >= 4,
                    u256_as_nat(two) == 2,
                    2 <= u256_as_nat(x),
                    u256_as_nat(x) <= n / 2 + 2,
                    (u256_as_nat(x) + 1) * (u256_as_nat(x) + 1) > n,
                    2 <= u256_as_nat(z) <= n,
                    (u256_as_nat(z) + 1) * (u256_as_nat(z) + 1) > n,
                    u256_as_nat(x) >= u256_as_nat(z) ==> u256_as_nat(z) * u256_as_nat(z) <= n,
                decreases u256_as_nat(z),
            {
                let xo = x;
                let ghost c = u256_as_nat(xo);
                z = xo;
                let q = u256_div(&y, &xo);
                let ghost qq = u256_as_nat(q);
                proof {
                    lemma_fundamental_div_mod(n as int, c as int);
                    // The next iterate fits in 256 bits.
                    lemma_fundamental_div_mod(n as int, 2);
                    lemma_fundamental_div_mod(n as int, 3);
                    if c == 2 {
                        assert(qq + c < two_pow_256());
                    } else {
                        assert(qq <= n / 3) by (nonlinear_arith)
                            requires
                                n == c * qq + n % c,
                                0 <= n % c,
                                c >= 3,
                                qq >= 0,
                                n == 3 * (n / 3) + n % 3,
                                0 <= n % 3 < 3,
                        ;
                        assert(qq + c < two_pow_256());
                    }
                }
                let s = u256_add(&q, &xo);
                x = u256_div(&s, &two);
                proof {
                    let xn = u256_as_nat(x);
                    lemma_fundamental_div_mod((qq + c) as int, 2);
                    // The invariant that the iterate never falls below the root.
                    assert((xn + 1) * (xn + 1) > n) by (nonlinear_arith)
                        requires
                            qq + c == 2 * xn + (qq + c) % 2,
                            0 <= (qq + c) % 2 < 2,
                            n == c * qq + n % c,
                            0 <= n % c < c,
                    ;
                    // The iterate keeps its upper bound.
                    assert(qq <= n / 2) by (nonlinear_arith)
                        requires
                            n == c * qq + n % c,
                            0 <= n % c,
                            c >= 2,
                            qq >= 0,
                            n == 2 * (n / 2) + n % 2,
                            0 <= n % 2 < 2,
                    ;
                    // When the iteration stops descending, the stop value is
                    // at most the root.
                    if xn >= c {
                        assert(c * c <= n) by (nonlinear_arith)
                            requires
                                qq + c == 2 * xn + (qq + c) % 2,
                                0 <= (qq + c) % 2 < 2,
                                xn >= c,
                                n == c * qq + n % c,
                                0 <= n % c,
                        ;
                    }
                    assert(xn >= 2) by (nonlinear_arith)
                        requires
                            (xn + 1) * (xn + 1) > n,
                            n >= 4,
                            xn >= 0,
                    ;
                }
            }
            z
        } else if !u256_is_zero(&y) {
            let o = u256_one();
            proof {
                assert(u256_as_nat(o) * u256_as_nat(o) <= u256_as_nat(y) < (u256_as_nat(o) + 1)
                    * (u256_as_nat(o) + 1)) by (nonlinear_arith)
                    requires
                        u256_as_nat(o) == 1,
                        1 <= u256_as_nat(y) <= 3,
                ;
            }
            o
        } else {
            let zz = u256_zero();
            proof {
                assert(u256_as_nat(zz) * u256_as_nat(zz) <= u256_as_nat(y) < (u256_as_nat(zz) + 1)
                    * (u256_as_nat(zz) + 1)) by (nonlinear_arith)
                    requires
                        u256_as_nat(zz) == 0,
                        u256_as_nat(y) == 0,
                ;
            }
            zz
        }
    }

    /// The smaller of two values.
    pub fn min(a: U256, b: U256) -> (r: U256)
        ensures
            u256_as_nat(r) == if u256_as_nat(a) < u256_as_nat(b) {
                u256_as_nat(a)
            } else {
                u256_as_nat(b)
            },
    {
        if u256_lt(&a, &b) {
            a
        } else {
            b
        }
    }

    /// The larger of two values.
    pub fn max(a: U256, b: U256) -> (r: U256)
        ensures
            u256_as_nat(r) == if u256_as_nat(a) > u256_as_nat(b) {
                u256_as_nat(a)
            } else {
                u256_as_nat(b)
            },
    {
        if u256_lt(&b, &a) {
            a
        } else {
            b
        }
    }
}

/// Holds exactly of the integer square root of `n`.
pub open spec fn spec_is_isqrt(s: nat, n: nat) -> bool {
    s * s <= n < (s + 1) * (s + 1)
}

/// The integer square root of `n`.
pub open spec fn spec_isqrt(n: nat) -> nat {
    choose|s: nat| spec_is_isqrt(s, n)
}

/// The integer square root is unique, so any witness pins `spec_isqrt` down.
pub proof fn lemma_isqrt_is(s: nat, n: nat)
    requires
        spec_is_isqrt(s, n),
    ensures
        spec_isqrt(n) == s,
{
    assert(exists|w: nat| spec_is_isqrt(w, n));
    let c = spec_isqrt(n);
    assert(spec_is_isqrt(c, n));
    assert(c == s) by (nonlinear_arith)
        requires
            c * c <= n,
            n < (c + 1) * (c + 1),
            s * s <= n,
            n < (s + 1) * (s + 1),
    ;
}

/// What a swap pays out: the constant-product output after the 0.3% fee.
pub open spec fn spec_amount_out(ai: nat, ri: nat, ro: nat) -> nat {
    (ai * 997 * ro) / (ri * 1000 + ai * 997)
}

/// Whether the output computation stays within 256 bits.
pub open spec fn spec_amount_out_fits(ai: nat, ri: nat, ro: nat) -> bool {
    ai * 997 < two_pow_256() && ai * 997 * ro < two_pow_256() && ri * 1000 + ai * 997
        < two_pow_256()
}

/// What a swap must be paid: the constant-product input for a desired
/// output, after the 0.3% fee, rounded up by one.
pub open spec fn spec_amount_in(ao: nat, ri: nat, ro: nat) -> nat {
    (ri * ao * 1000) / (((ro - ao) as nat) * 997) + 1
}

/// Whether the input computation stays within 256 bits.
pub open spec fn spec_amount_in_fits(ao: nat, ri: nat, ro: nat) -> bool {
    ri * ao < two_pow_256() && ri * ao * 1000 < two_pow_256() && ((ro - ao) as nat) * 997
        < two_pow_256() && (ri * ao * 1000) / (((ro - ao) as nat) * 997) + 1 < two_pow_256()
}

/// Constant-product market-maker formulas.
pub struct AmmMath;

impl AmmMath {
    /// Output amount for a given input under `x * y = k` with a 0.3% fee.
    pub fn get_amount_out(amount_in: U256, reserve_in: U256, reserve_out: U256) -> (r: Result<
        U256,
        DexError,
    >)
        ensures
            match r {
                Ok(v) => u256_as_nat(v) == spec_amount_out(
                    u256_as_nat(amount_in),
                    u256_as_nat(reserve_in),
                    u256_as_nat(reserve_out),
                ),
                Err(e) => (e == DexError::InsufficientInputAmount && u256_as_nat(amount_in) == 0)
                    || (e == DexError::InsufficientLiquidity && u256_as_nat(amount_in) > 0 && (
                u256_as_nat(reserve_in) == 0 || u256_as_nat(reserve_out) == 0)) || (e
                    == DexError::Overflow && u256_as_nat(amount_in) > 0 && u256_as_nat(reserve_in)
                    > 0 && u256_as_nat(reserve_out) > 0 && !spec_amount_out_fits(
                    u256_as_nat(amount_in),
                    u256_as_nat(reserve_in),
                    u256_as_nat(reserve_out),
                )),
            },
            r is Ok <==> u256_as_nat(amount_in) > 0 && u256_as_nat(reserve_in) > 0 && u256_as_nat(
                reserve_out,
            ) > 0 && spec_amount_out_fits(
                u256_as_nat(amount_in),
                u256_as_nat(reserve_in),
                u256_as_nat(reserve_out),
            ),
    {
        if u256_is_zero(&amount_in) {
            return Err(DexError::InsufficientInputAmount);
        }
        if u256_is_zero(&reserve_in) || u256_is_zero(&reserve_out) {
            return Err(DexError::InsufficientLiquidity);
        }
        let fee_factor = u256_from_u64((FEE_DENOMINATOR - FEE_NUMERATOR) as u64);
        let amount_in_with_fee = match SafeMath::mul(amount_in, fee_factor) {
            Ok(v) => v,
            Err(e) => { return Err(e); },
        };
        let numerator = match SafeMath::mul(amount_in_with_fee, reserve_out) {
            Ok(v) => v,
            Err(e) => { return Err(e); },
        };
        let scaled_reserve = match SafeMath::mul(reserve_in, u256_from_u64(
            FEE_DENOMINATOR as u64,
        )) {
            Ok(v) => v,
            Err(e) => { return Err(e); },
        };
        let denominator = match SafeMath::add(scaled_reserve, amount_in_with_fee) {
            Ok(v) => v,
            Err(e) => { return Err(e); },
        };
        proof {
            assert(u256_as_nat(reserve_in) * 1000 >= 1000) by (nonlinear_arith)
                requires
                    u256_as_nat(reserve_in) >= 1,
            ;
        }
        match SafeMath::div(numerator, denominator) {
            Ok(v) => Ok(v),
            Err(_) => unreached(),
        }
    }

    /// Input amount required for a given output under `x * y = k` with a
    /// 0.3% fee.
    pub fn get_amount_in(amount_out: U256, reserve_in: U256, reserve_out: U256) -> (r: Result<
        U256,
        DexError,
    >)
        ensures
            match r {
                Ok(v) => u256_as_nat(v) == spec_amount_in(
                    u256_as_nat(amount_out),
                    u256_as_nat(reserve_in),
                    u256_as_nat(reserve_out),
                ),
                Err(e) => (e == DexError::InsufficientOutputAmount && u256_as_nat(amount_out) == 0)
                    || (e == DexError::InsufficientLiquidity && u256_as_nat(amount_out) > 0 && (
                u256_as_nat(reserve_in) == 0 || u256_as_nat(reserve_out) == 0 || u256_as_nat(
                    amount_out,
                ) >= u256_as_nat(reserve_out))) || (e == DexError::Overflow && u256_as_nat(
                    amount_out,
                ) > 0 && u256_as_nat(reserve_in) > 0 && u256_as_nat(amount_out) < u256_as_nat(
                    reserve_out,
                ) && !spec_amount_in_fits(
                    u256_as_nat(amount_out),
                    u256_as_nat(reserve_in),
                    u256_as_nat(reserve_out),
                )),
            },
            r is Ok <==> u256_as_nat(amount_out) > 0 && u256_as_nat(reserve_in) > 0 && u256_as_nat(
                amount_out,
            ) < u256_as_nat(reserve_out) && spec_amount_in_fits(
                u256_as_nat(amount_out),
                u256_as_nat(reserve_in),
                u256_as_nat(reserve_out),
            ),
    {
        if u256_is_zero(&amount_out) {
            return Err(DexError::InsufficientOutputAmount);
        }
        if u256_is_zero(&reserve_in) || u256_is_zero(&reserve_out) {
            return Err(DexError::InsufficientLiquidity);
        }
        if !u256_lt(&amount_out, &reserve_out) {
            return Err(DexError::InsufficientLiquidity);
        }
        let base = match SafeMath::mul(reserve_in, amount_out) {
            Ok(v) => v,
            Err(e) => { return Err(e); },
        };
        let numerator = match SafeMath::mul(base, u256_from_u64(FEE_DENOMINATOR as u64)) {
            Ok(v) => v,
            Err(e) => { return Err(e); },
        };
        let gap = match SafeMath::sub(reserve_out, amount_out) {
            Ok(v) => v,
            Err(_) => unreached(),
        };
        let denominator = match SafeMath::mul(gap, u256_from_u64(
            (FEE_DENOMINATOR - FEE_NUMERATOR) as u64,
        )) {
            Ok(v) => v,
            Err(e) => { return Err(e); },
        };
        proof {
            assert(u256_as_nat(gap) * 997 >= 997) by (nonlinear_arith)
                requires
                    u256_as_nat(gap) >= 1,
            ;
        }
        let quotient = match SafeMath::div(numerator, denominator) {
            Ok(v) => v,
            Err(_) => unreached(),
        };
        match SafeMath::add(quotient, u256_one()) {
            Ok(v) => Ok(v),
            Err(e) => Err(e),
        }
    }

    /// The amount of the second token matching a given amount of the first
    /// at the current reserve ratio.
    pub fn quote(amount_a: U256, reserve_a: U256, reserve_b: U256) -> (r: Result<U256, DexError>)
        ensures
            match r {
                Ok(v) => u256_as_nat(v) == (u256_as_nat(amount_a) * u256_as_nat(reserve_b))
                    / u256_as_nat(reserve_a),
                Err(e) => (e == DexError::InsufficientAmount && u256_as_nat(amount_a) == 0) || (e
                    == DexError::InsufficientLiquidity && u256_as_nat(amount_a) > 0 && (
                u256_as_nat(reserve_a) == 0 || u256_as_nat(reserve_b) == 0)) || (e
                    == DexError::Overflow && u256_as_nat(amount_a) > 0 && u256_as_nat(reserve_a)
                    > 0 && u256_as_nat(reserve_b) > 0 && u256_as_nat(amount_a) * u256_as_nat(
                    reserve_b,
                ) >= two_pow_256()),
            },
            r is Ok <==> u256_as_nat(amount_a) > 0 && u256_as_nat(reserve_a) > 0 && u256_as_nat(
                reserve_b,
            ) > 0 && u256_as_nat(amount_a) * u256_as_nat(reserve_b) < two_pow_256(),
    {
        if u256_is_zero(&amount_a) {
            return Err(DexError::InsufficientAmount);
        }
        if u256_is_zero(&reserve_a) || u256_is_zero(&reserve_b) {
            return Err(DexError::InsufficientLiquidity);
        }
        let product = match SafeMath::mul(amount_a, reserve_b) {
            Ok(v) => v,
            Err(e) => { return Err(e); },
        };
        match SafeMath::div(product, reserve_a) {
            Ok(v) => Ok(v),
            Err(_) => unreached(),
        }
    }

    /// Liquidity tokens minted for a provision: the square root of the
    /// product less the locked minimum on the first deposit, the reserve
    /// ratio minimum afterwards.
    pub fn calculate_liquidity(
        amount0: U256,
        amount1: U256,
        reserve0: U256,
        reserve1: U256,
        total_supply: U256,
    ) -> (r: Result<U256, DexError>)
        ensures
            u256_as_nat(total_supply) == 0 ==> match r {
                Ok(v) => u256_as_nat(amount0) * u256_as_nat(amount1) < two_pow_256() && spec_isqrt(
                    u256_as_nat(amount0) * u256_as_nat(amount1),
                ) > 1000 && u256_as_nat(v) == spec_isqrt(
                    u256_as_nat(amount0) * u256_as_nat(amount1),
                ) - 1000,
                Err(e) => (e == DexError::Overflow && u256_as_nat(amount0) * u256_as_nat(amount1)
                    >= two_pow_256()) || (e == DexError::InsufficientLiquidityMinted && u256_as_nat(
                    amount0,
                ) * u256_as_nat(amount1) < two_pow_256() && spec_isqrt(
                    u256_as_nat(amount0) * u256_as_nat(amount1),
                ) <= 1000),
            },
            u256_as_nat(total_supply) > 0 ==> match r {
                Ok(v) => u256_as_nat(reserve0) > 0 && u256_as_nat(reserve1) > 0 && u256_as_nat(
                    amount0,
                ) * u256_as_nat(total_supply) < two_pow_256() && u256_as_nat(amount1)
                    * u256_as_nat(total_supply) < two_pow_256() && u256_as_nat(v) == vstd::math::min(
                    ((u256_as_nat(amount0) * u256_as_nat(total_supply)) / u256_as_nat(
                        reserve0,
                    )) as int,
                    ((u256_as_nat(amount1) * u256_as_nat(total_supply)) / u256_as_nat(
                        reserve1,
                    )) as int,
                ),
                Err(e) => (e == DexError::Overflow && (u256_as_nat(amount0) * u256_as_nat(
                    total_supply,
                ) >= two_pow_256() || (u256_as_nat(reserve0) > 0 && u256_as_nat(amount1)
                    * u256_as_nat(total_supply) >= two_pow_256()))) || (e
                    == DexError::DivisionByZero && (u256_as_nat(amount0) * u256_as_nat(
                    total_supply,
                ) < two_pow_256() && u256_as_nat(reserve0) == 0 || (u256_as_nat(reserve0) > 0
                    && u256_as_nat(amount1) * u256_as_nat(total_supply) < two_pow_256()
                    && u256_as_nat(reserve1) == 0))),
            },
    {
        if u256_is_zero(&total_supply) {
            let product = match SafeMath::mul(amount0, amount1) {
                Ok(v) => v,
                Err(e) => { return Err(e); },
            };
            let liquidity = SafeMath::sqrt(product);
            proof {
                lemma_isqrt_is(u256_as_nat(liquidity), u256_as_nat(product));
            }
            let min_liquidity = u256_from_u64(MINIMUM_LIQUIDITY as u64);
            if !u256_lt(&min_liquidity, &liquidity) {
                return Err(DexError::InsufficientLiquidityMinted);
            }
            match SafeMath::sub(liquidity, min_liquidity) {
                Ok(v) => Ok(v),
                Err(_) => unreached(),
            }
        } else {
            let scaled0 = match SafeMath::mul(amount0, total_supply) {
                Ok(v) => v,
                Err(e) => { return Err(e); },
            };
            let liquidity0 = match SafeMath::div(scaled0, reserve0) {
                Ok(v) => v,
                Err(e) => { return Err(e); },
            };
            let scaled1 = match SafeMath::mul(amount1, total_supply) {
                Ok(v) => v,
                Err(e) => { return Err(e); },
            };
            let liquidity1 = match SafeMath::div(scaled1, reserve1) {
                Ok(v) => v,
                Err(e) => { return Err(e); },
            };
            Ok(SafeMath::min(liquidity0, liquidity1))
        }
    }

    /// Token amounts returned for burning liquidity: the proportional share
    /// of each reserve.
    pub fn calculate_burn_amounts(
        liquidity: U256,
        reserve0: U256,
        reserve1: U256,
        total_supply: U256,
    ) -> (r: Result<(U256, U256), DexError>)
        ensures
            match r {
                Ok(v) => u256_as_nat(total_supply) > 0 && u256_as_nat(liquidity) * u256_as_nat(
                    reserve0,
                ) < two_pow_256() && u256_as_nat(liquidity) * u256_as_nat(reserve1)
                    < two_pow_256() && u256_as_nat(v.0) == (u256_as_nat(liquidity) * u256_as_nat(
                    reserve0,
                )) / u256_as_nat(total_supply) && u256_as_nat(v.1) == (u256_as_nat(liquidity)
                    * u256_as_nat(reserve1)) / u256_as_nat(total_supply) && u256_as_nat(v.0) > 0
                    && u256_as_nat(v.1) > 0,
                Err(e) => (e == DexError::InsufficientLiquidity && u256_as_nat(total_supply) == 0)
                    || (e == DexError::Overflow && u256_as_nat(total_supply) > 0 && (u256_as_nat(
                    liquidity,
                ) * u256_as_nat(reserve0) >= two_pow_256() || u256_as_nat(liquidity) * u256_as_nat(
                    reserve1,
                ) >= two_pow_256())) || (e == DexError::InsufficientLiquidityBurned && u256_as_nat(
                    total_supply,
                ) > 0 && u256_as_nat(liquidity) * u256_as_nat(reserve0) < two_pow_256()
                    && u256_as_nat(liquidity) * u256_as_nat(reserve1) < two_pow_256() && ((
                u256_as_nat(liquidity) * u256_as_nat(reserve0)) / u256_as_nat(total_supply) == 0
                    || (u256_as_nat(liquidity) * u256_as_nat(reserve1)) / u256_as_nat(total_supply)
                    == 0)),
            },
    {
        if u256_is_zero(&total_supply) {
            return Err(DexError::InsufficientLiquidity);
        }
        let scaled0 = match SafeMath::mul(liquidity, reserve0) {
            Ok(v) => v,
            Err(e) => { return Err(e); },
        };
        let amount0 = match SafeMath::div(scaled0, total_supply) {
            Ok(v) => v,
            Err(_) => unreached(),
        };
        let scaled1 = match SafeMath::mul(liquidity, reserve1) {
            Ok(v) => v,
            Err(e) => { return Err(e); },
        };
        let amount1 = match SafeMath::div(scaled1, total_supply) {
            Ok(v) => v,
            Err(_) => unreached(),
        };
        if u256_is_zero(&amount0) || u256_is_zero(&amount1) {
            return Err(DexError::InsufficientLiquidityBurned);
        }
        Ok((amount0, amount1))
    }

    /// Whether the constant-product invariant is kept: the new product is at
    /// least the old one.
    pub fn verify_k_invariant(
        reserve0_old: U256,
        reserve1_old: U256,
        reserve0_new: U256,
        reserve1_new: U256,
    ) -> (r: Result<bool, DexError>)
        ensures
            match r {
                Ok(b) => u256_as_nat(reserve0_old) * u256_as_nat(reserve1_old) < two_pow_256()
                    && u256_as_nat(reserve0_new) * u256_as_nat(reserve1_new) < two_pow_256() && b
                    == (u256_as_nat(reserve0_new) * u256_as_nat(reserve1_new) >= u256_as_nat(
                    reserve0_old,
                ) * u256_as_nat(reserve1_old)),
                Err(e) => e == DexError::Overflow && (u256_as_nat(reserve0_old) * u256_as_nat(
                    reserve1_old,
                ) >= two_pow_256() || u256_as_nat(reserve0_new) * u256_as_nat(reserve1_new)
                    >= two_pow_256()),
            },
    {
        let k_old = match SafeMath::mul(reserve0_old, reserve1_old) {
            Ok(v) => v,
            Err(e) => { return Err(e); },
        };
        let k_new = match SafeMath::mul(reserve0_new, reserve1_new) {
            Ok(v) => v,
            Err(e) => { return Err(e); },
        };
        Ok(!u256_lt(&k_new, &k_old))
    }
}

} // verus!
