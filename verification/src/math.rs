//! Pure constant-product arithmetic: quoting, optimal deposit amounts,
//! liquidity minting, and the swap input/output formulas with a 0.30% pool
//! fee (997/1000) and an optional treasury surcharge in basis points.
//!
//! Every function states its exact result, including the input on which each
//! error is returned, over the mathematical values of its 256-bit arguments.

use vstd::prelude::*;

use crate::pair::PairError;
use crate::u256::{pow256, sqrt_nat, U256};

verus! {

/// Liquidity-provider shares minted to the zero identity on the first
/// deposit and never burnable.
pub const MINIMUM_LIQUIDITY: u64 = 1000;

/// Pool fee in parts per thousand taken from the input leg of a swap.
pub const FEE_BPS: u64 = 3;

/// Denominator of the treasury surcharge, in basis points.
pub const FEE_DENOM_BPS: u64 = 10000;

/// Default treasury surcharge (0.05%) applied when a treasury is configured.
pub const TREASURY_FEE_BPS: u64 = 5;

/// The mathematical value of an exact 256-bit result.
pub open spec fn to_nat_result(r: Result<U256, PairError>) -> Result<nat, PairError> {
    match r {
        Ok(v) => Ok(v.as_nat()),
        Err(e) => Err(e),
    }
}

/// The mathematical values of an exact pair of 256-bit results.
pub open spec fn to_nat_result2(r: Result<(U256, U256), PairError>) -> Result<
    (nat, nat),
    PairError,
> {
    match r {
        Ok(v) => Ok((v.0.as_nat(), v.1.as_nat())),
        Err(e) => Err(e),
    }
}

/// The mathematical values of an exact triple of 256-bit results.
pub open spec fn to_nat_result3(r: Result<(U256, U256, U256), PairError>) -> Result<
    (nat, nat, nat),
    PairError,
> {
    match r {
        Ok(v) => Ok((v.0.as_nat(), v.1.as_nat(), v.2.as_nat())),
        Err(e) => Err(e),
    }
}

/// `⌊a·rb / ra⌋`: how much of token B matches `a` of token A at the current
/// reserves; 0 for `a = 0`; an error on empty reserves or overflow.
pub open spec fn spec_quote(a: nat, ra: nat, rb: nat) -> Result<nat, PairError> {
    if a == 0 {
        Ok(0)
    } else if ra == 0 || rb == 0 {
        Err(PairError::InsufficientLiquidity)
    } else if a * rb >= pow256() {
        Err(PairError::Overflow)
    } else {
        Ok(a * rb / ra)
    }
}

/// Amount of token B needed for a given amount of token A at the current
/// reserves, by floor division.
pub fn quote(amount_a: U256, reserve_a: U256, reserve_b: U256) -> (r: Result<U256, PairError>)
    ensures
        to_nat_result(r) == spec_quote(amount_a.as_nat(), reserve_a.as_nat(), reserve_b.as_nat()),
{
    if amount_a.is_zero() {
        return Ok(U256::zero());
    }
    if reserve_a.is_zero() || reserve_b.is_zero() {
        return Err(PairError::InsufficientLiquidity);
    }
    let numerator = match amount_a.checked_mul(&reserve_b) {
        Some(n) => n,
        None => {
            return Err(PairError::Overflow);
        },
    };
    Ok(numerator.div(&reserve_a))
}

/// The deposit that `calculate_optimal_amounts` accepts for the desired and
/// minimum amounts at the given reserves, or the error it rejects them with.
pub open spec fn spec_optimal_amounts(
    ra: nat,
    rb: nat,
    a_des: nat,
    b_des: nat,
    a_min: nat,
    b_min: nat,
) -> Result<(nat, nat), PairError> {
    if ra == 0 && rb == 0 {
        Ok((a_des, b_des))
    } else {
        match spec_quote(a_des, ra, rb) {
            Err(e) => Err(e),
            Ok(b_opt) => if b_opt <= b_des {
                if b_opt < b_min {
                    Err(PairError::InsufficientAmountB)
                } else {
                    Ok((a_des, b_opt))
                }
            } else {
                match spec_quote(b_des, rb, ra) {
                    Err(e) => Err(e),
                    Ok(a_opt) => if a_opt > a_des {
                        Err(PairError::InsufficientAmountA)
                    } else if a_opt < a_min {
                        Err(PairError::InsufficientAmountA)
                    } else {
                        Ok((a_opt, b_des))
                    },
                }
            },
        }
    }
}

/// Picks the token amounts actually deposited when adding liquidity: the
/// desired amounts on the first deposit, otherwise the largest deposit at the
/// current reserve ratio within the desired amounts, failing when it falls
/// under the requested minimum.
pub fn calculate_optimal_amounts(
    reserve_a: U256,
    reserve_b: U256,
    amount_a_desired: U256,
    amount_b_desired: U256,
    amount_a_min: U256,
    amount_b_min: U256,
) -> (r: Result<(U256, U256), PairError>)
    ensures
        to_nat_result2(r) == spec_optimal_amounts(
            reserve_a.as_nat(),
            reserve_b.as_nat(),
            amount_a_desired.as_nat(),
            amount_b_desired.as_nat(),
            amount_a_min.as_nat(),
            amount_b_min.as_nat(),
        ),
{
    if reserve_a.is_zero() && reserve_b.is_zero() {
        return Ok((amount_a_desired, amount_b_desired));
    }
    let amount_b_optimal = match quote(amount_a_desired, reserve_a, reserve_b) {
        Ok(v) => v,
        Err(e) => {
            return Err(e);
        },
    };
    if amount_b_optimal.le(&amount_b_desired) {
        if amount_b_optimal.lt(&amount_b_min) {
            return Err(PairError::InsufficientAmountB);
        }
        Ok((amount_a_desired, amount_b_optimal))
    } else {
        let amount_a_optimal = match quote(amount_b_desired, reserve_b, reserve_a) {
            Ok(v) => v,
            Err(e) => {
                return Err(e);
            },
        };
        if amount_a_desired.lt(&amount_a_optimal) {
            return Err(PairError::InsufficientAmountA);
        }
        if amount_a_optimal.lt(&amount_a_min) {
            return Err(PairError::InsufficientAmountA);
        }
        Ok((amount_a_optimal, amount_b_desired))
    }
}

/// The liquidity that `calculate_liquidity` mints, or the error it fails
/// with: `⌊√(a·b)⌋ − 1000` on the first deposit, otherwise the reserve-ratio
/// share `min(⌊a·ts/ra⌋, ⌊b·ts/rb⌋)`; zero liquidity is rejected.
pub open spec fn spec_calculate_liquidity(ra: nat, rb: nat, a: nat, b: nat, ts: nat) -> Result<
    nat,
    PairError,
> {
    if ts == 0 {
        if a * b >= pow256() {
            Err(PairError::Overflow)
        } else if sqrt_nat(a * b) <= MINIMUM_LIQUIDITY {
            Err(PairError::InsufficientLiquidityMinted)
        } else {
            Ok((sqrt_nat(a * b) - MINIMUM_LIQUIDITY) as nat)
        }
    } else {
        if a * ts >= pow256() {
            Err(PairError::Overflow)
        } else if b * ts >= pow256() {
            Err(PairError::Overflow)
        } else {
            let la = a * ts / ra;
            let lb = b * ts / rb;
            let l = if la <= lb {
                la
            } else {
                lb
            };
            if l == 0 {
                Err(PairError::InsufficientLiquidityMinted)
            } else {
                Ok(l)
            }
        }
    }
}

/// Liquidity shares to mint for a deposit of `amount_a_added` and
/// `amount_b_added` against the current reserves and LP total supply.
pub fn calculate_liquidity(
    reserve_a: U256,
    reserve_b: U256,
    amount_a_added: U256,
    amount_b_added: U256,
    total_supply: U256,
) -> (r: Result<U256, PairError>)
    requires
        total_supply.as_nat() > 0 ==> reserve_a.as_nat() > 0 && reserve_b.as_nat() > 0,
    ensures
        to_nat_result(r) == spec_calculate_liquidity(
            reserve_a.as_nat(),
            reserve_b.as_nat(),
            amount_a_added.as_nat(),
            amount_b_added.as_nat(),
            total_supply.as_nat(),
        ),
{
    let liquidity = if total_supply.is_zero() {
        let product = match amount_a_added.checked_mul(&amount_b_added) {
            Some(p) => p,
            None => {
                return Err(PairError::Overflow);
            },
        };
        let sqrt = product.integer_sqrt();
        let min_liquidity = U256::from_u64(MINIMUM_LIQUIDITY);
        if sqrt.lt(&min_liquidity) {
            return Err(PairError::InsufficientLiquidityMinted);
        }
        sqrt.checked_sub(&min_liquidity).unwrap()
    } else {
        let liq_a = match amount_a_added.checked_mul(&total_supply) {
            Some(p) => p,
            None => {
                return Err(PairError::Overflow);
            },
        }.div(&reserve_a);
        let liq_b = match amount_b_added.checked_mul(&total_supply) {
            Some(p) => p,
            None => {
                return Err(PairError::Overflow);
            },
        }.div(&reserve_b);
        if liq_a.le(&liq_b) {
            liq_a
        } else {
            liq_b
        }
    };
    if liquidity.is_zero() {
        return Err(PairError::InsufficientLiquidityMinted);
    }
    Ok(liquidity)
}

/// The output amount of `get_amount_out`, or the error it fails with:
/// `⌊997·aIn·rOut / (1000·rIn + 997·aIn)⌋`.
pub open spec fn spec_get_amount_out(ain: nat, rin: nat, rout: nat) -> Result<nat, PairError> {
    if ain == 0 {
        Err(PairError::InsufficientAmount)
    } else if rin == 0 || rout == 0 {
        Err(PairError::InsufficientLiquidity)
    } else if ain * 997 >= pow256() {
        Err(PairError::Overflow)
    } else if (ain * 997) * rout >= pow256() {
        Err(PairError::Overflow)
    } else if rin * 1000 >= pow256() {
        Err(PairError::Overflow)
    } else if rin * 1000 + ain * 997 >= pow256() {
        Err(PairError::Overflow)
    } else {
        Ok((ain * 997) * rout / (rin * 1000 + ain * 997))
    }
}

/// Maximum output of the other asset for an exact input, after the 0.30%
/// pool fee, by floor division.
pub fn get_amount_out(amount_in: U256, reserve_in: U256, reserve_out: U256) -> (r: Result<
    U256,
    PairError,
>)
    ensures
        to_nat_result(r) == spec_get_amount_out(
            amount_in.as_nat(),
            reserve_in.as_nat(),
            reserve_out.as_nat(),
        ),
{
    if amount_in.is_zero() {
        return Err(PairError::InsufficientAmount);
    }
    if reserve_in.is_zero() || reserve_out.is_zero() {
        return Err(PairError::InsufficientLiquidity);
    }
    let fee_multiplier = U256::from_u64(997);
    let thousand = U256::from_u64(1000);
    let amount_in_with_fee = match amount_in.checked_mul(&fee_multiplier) {
        Some(v) => v,
        None => {
            return Err(PairError::Overflow);
        },
    };
    let numerator = match amount_in_with_fee.checked_mul(&reserve_out) {
        Some(v) => v,
        None => {
            return Err(PairError::Overflow);
        },
    };
    let denominator_part1 = match reserve_in.checked_mul(&thousand) {
        Some(v) => v,
        None => {
            return Err(PairError::Overflow);
        },
    };
    let denominator = match denominator_part1.checked_add(&amount_in_with_fee) {
        Some(v) => v,
        None => {
            return Err(PairError::Overflow);
        },
    };
    Ok(numerator.div(&denominator))
}

/// The input amount of `get_amount_in`, or the error it fails with:
/// `⌊1000·rIn·aOut / (997·(rOut − aOut))⌋ + 1`.
pub open spec fn spec_get_amount_in(aout: nat, rin: nat, rout: nat) -> Result<nat, PairError> {
    if aout == 0 {
        Err(PairError::InsufficientAmount)
    } else if rin == 0 || rout == 0 {
        Err(PairError::InsufficientLiquidity)
    } else if aout >= rout {
        Err(PairError::InsufficientLiquidity)
    } else if rin * aout >= pow256() {
        Err(PairError::Overflow)
    } else if (rin * aout) * 1000 >= pow256() {
        Err(PairError::Overflow)
    } else if (rout - aout) * 997 >= pow256() {
        Err(PairError::Overflow)
    } else if (rin * aout) * 1000 / (((rout - aout) as nat) * 997) + 1 >= pow256() {
        Err(PairError::Overflow)
    } else {
        Ok((rin * aout) * 1000 / (((rout - aout) as nat) * 997) + 1)
    }
}

/// Input of one asset required for an exact output of the other, after the
/// 0.30% pool fee, rounded up by one in the pool's favour.
pub fn get_amount_in(amount_out: U256, reserve_in: U256, reserve_out: U256) -> (r: Result<
    U256,
    PairError,
>)
    ensures
        to_nat_result(r) == spec_get_amount_in(
            amount_out.as_nat(),
            reserve_in.as_nat(),
            reserve_out.as_nat(),
        ),
{
    if amount_out.is_zero() {
        return Err(PairError::InsufficientAmount);
    }
    if reserve_in.is_zero() || reserve_out.is_zero() {
        return Err(PairError::InsufficientLiquidity);
    }
    if !amount_out.lt(&reserve_out) {
        return Err(PairError::InsufficientLiquidity);
    }
    let fee_multiplier = U256::from_u64(997);
    let thousand = U256::from_u64(1000);
    let numerator_part1 = match reserve_in.checked_mul(&amount_out) {
        Some(v) => v,
        None => {
            return Err(PairError::Overflow);
        },
    };
    let numerator = match numerator_part1.checked_mul(&thousand) {
        Some(v) => v,
        None => {
            return Err(PairError::Overflow);
        },
    };
    let denominator_part1 = reserve_out.checked_sub(&amount_out).unwrap();
    let denominator = match denominator_part1.checked_mul(&fee_multiplier) {
        Some(v) => v,
        None => {
            return Err(PairError::Overflow);
        },
    };
    let amount_in = match numerator.div(&denominator).checked_add(&U256::from_u64(1)) {
        Some(v) => v,
        None => {
            return Err(PairError::Overflow);
        },
    };
    Ok(amount_in)
}

/// The `(aInPool, aOut, tFee)` triple of `get_amount_out_with_treasury`:
/// the treasury surcharge `⌊aInTotal·tBps/10000⌋` comes off the input first,
/// the rest goes through the pool formula.
pub open spec fn spec_get_amount_out_with_treasury(
    ain_total: nat,
    rin: nat,
    rout: nat,
    tbps: nat,
) -> Result<(nat, nat, nat), PairError> {
    if tbps == 0 {
        match spec_get_amount_out(ain_total, rin, rout) {
            Ok(out) => Ok((ain_total, out, 0)),
            Err(e) => Err(e),
        }
    } else if ain_total * tbps >= pow256() {
        Err(PairError::Overflow)
    } else {
        let tfee = ain_total * tbps / (FEE_DENOM_BPS as nat);
        if tfee >= ain_total {
            Err(PairError::InsufficientAmount)
        } else {
            match spec_get_amount_out((ain_total - tfee) as nat, rin, rout) {
                Ok(out) => Ok(((ain_total - tfee) as nat, out, tfee)),
                Err(e) => Err(e),
            }
        }
    }
}

/// Splits an exact input into the treasury surcharge and the part swapped
/// through the pool, and quotes the output for the latter. Returns
/// `(aInPool, aOut, tFee)`.
pub fn get_amount_out_with_treasury(
    amount_in_total: U256,
    reserve_in: U256,
    reserve_out: U256,
    treasury_bps: u64,
) -> (r: Result<(U256, U256, U256), PairError>)
    ensures
        to_nat_result3(r) == spec_get_amount_out_with_treasury(
            amount_in_total.as_nat(),
            reserve_in.as_nat(),
            reserve_out.as_nat(),
            treasury_bps as nat,
        ),
{
    if treasury_bps == 0 {
        let out = match get_amount_out(amount_in_total, reserve_in, reserve_out) {
            Ok(v) => v,
            Err(e) => {
                return Err(e);
            },
        };
        return Ok((amount_in_total, out, U256::zero()));
    }
    let scaled = match amount_in_total.checked_mul(&U256::from_u64(treasury_bps)) {
        Some(v) => v,
        None => {
            return Err(PairError::Overflow);
        },
    };
    let treasury_fee = scaled.div(&U256::from_u64(FEE_DENOM_BPS));
    let amount_in_pool = match amount_in_total.checked_sub(&treasury_fee) {
        Some(v) => v,
        None => {
            return Err(PairError::InsufficientAmount);
        },
    };
    if amount_in_pool.is_zero() {
        return Err(PairError::InsufficientAmount);
    }
    let out = match get_amount_out(amount_in_pool, reserve_in, reserve_out) {
        Ok(v) => v,
        Err(e) => {
            return Err(e);
        },
    };
    Ok((amount_in_pool, out, treasury_fee))
}

/// The `(aInPool, aInTotal, tFee)` triple of `get_amount_in_with_treasury`:
/// the pool input is grossed up to `⌈aInPool·10000/(10000−tBps)⌉` so that the
/// surcharge `tFee = aInTotal − aInPool` comes out of the caller's payment.
pub open spec fn spec_get_amount_in_with_treasury(
    aout: nat,
    rin: nat,
    rout: nat,
    tbps: nat,
) -> Result<(nat, nat, nat), PairError> {
    match spec_get_amount_in(aout, rin, rout) {
        Err(e) => Err(e),
        Ok(ain_pool) => if tbps == 0 {
            Ok((ain_pool, ain_pool, 0))
        } else if ain_pool * (FEE_DENOM_BPS as nat) >= pow256() {
            Err(PairError::Overflow)
        } else {
            let x = ain_pool * (FEE_DENOM_BPS as nat);
            let d = (FEE_DENOM_BPS - tbps) as nat;
            let ain_total = if x % d == 0 {
                x / d
            } else {
                x / d + 1
            };
            Ok((ain_pool, ain_total, (ain_total - ain_pool) as nat))
        },
    }
}

/// Grosses the pool input of an exact-output swap up by the treasury
/// surcharge, rounding in the pool's favour. Returns
/// `(aInPool, aInTotal, tFee)`.
pub fn get_amount_in_with_treasury(
    amount_out: U256,
    reserve_in: U256,
    reserve_out: U256,
    treasury_bps: u64,
) -> (r: Result<(U256, U256, U256), PairError>)
    requires
        treasury_bps < FEE_DENOM_BPS,
    ensures
        to_nat_result3(r) == spec_get_amount_in_with_treasury(
            amount_out.as_nat(),
            reserve_in.as_nat(),
            reserve_out.as_nat(),
            treasury_bps as nat,
        ),
{
    let amount_in_pool = match get_amount_in(amount_out, reserve_in, reserve_out) {
        Ok(v) => v,
        Err(e) => {
            return Err(e);
        },
    };
    if treasury_bps == 0 {
        return Ok((amount_in_pool, amount_in_pool, U256::zero()));
    }
    let x = match amount_in_pool.checked_mul(&U256::from_u64(FEE_DENOM_BPS)) {
        Some(v) => v,
        None => {
            return Err(PairError::Overflow);
        },
    };
    let d = U256::from_u64(FEE_DENOM_BPS - treasury_bps);
    let q = x.div(&d);
    proof {
        vstd::arithmetic::div_mod::lemma_fundamental_div_mod(x.as_nat() as int, d.as_nat() as int);
        vstd::arithmetic::div_mod::lemma_mod_division_less_than_divisor(
            x.as_nat() as int,
            d.as_nat() as int,
        );
        vstd::arithmetic::mul::lemma_mul_is_commutative(q.as_nat() as int, d.as_nat() as int);
    }
    let exact = q.checked_mul(&d).unwrap();
    let amount_in_total = if exact.eq_val(&x) {
        q
    } else {
        proof {
            lemma_ceil_fits(x.as_nat(), d.as_nat());
        }
        q.checked_add(&U256::from_u64(1)).unwrap()
    };
    proof {
        lemma_gross_up_covers(amount_in_pool.as_nat(), d.as_nat(), amount_in_total.as_nat());
    }
    let treasury_fee = amount_in_total.checked_sub(&amount_in_pool).unwrap();
    Ok((amount_in_pool, amount_in_total, treasury_fee))
}

/// When `d ≥ 2` divides into `x < 2^256` with a remainder, rounding the
/// quotient up stays below 2^256.
proof fn lemma_ceil_fits(x: nat, d: nat)
    requires
        2 <= d,
        x < pow256(),
    ensures
        x / d + 1 < pow256(),
{
    assert(x / d <= x / 2) by {
        vstd::arithmetic::div_mod::lemma_div_is_ordered_by_denominator(x as int, 2, d as int);
    }
    assert(x / 2 < pow256() - 1) by {
        vstd::arithmetic::div_mod::lemma_div_is_ordered(x as int, (pow256() - 1) as int, 2);
        assert((pow256() - 1) as int / 2 < pow256() - 1);
    }
}

/// Grossing `p·10000` up by a divisor `d ≤ 10000` gives back at least `p`.
pub proof fn lemma_gross_up_covers(p: nat, d: nat, total: nat)
    requires
        0 < d <= FEE_DENOM_BPS,
        total >= p * (FEE_DENOM_BPS as nat) / d,
    ensures
        total >= p,
{
    let x = p * (FEE_DENOM_BPS as nat);
    assert(p * d <= p * (FEE_DENOM_BPS as nat)) by (nonlinear_arith)
        requires
            d <= FEE_DENOM_BPS as nat,
            p >= 0,
    ;
    assert(p * d / d <= x / d) by {
        vstd::arithmetic::div_mod::lemma_div_is_ordered((p * d) as int, x as int, d as int);
    }
    assert(p * d / d == p) by {
        vstd::arithmetic::div_mod::lemma_div_by_multiple(p as int, d as int);
    }
}

/// The output of the pool formula never reaches the output reserve.
pub proof fn lemma_amount_out_lt_reserve(ain: nat, rin: nat, rout: nat)
    ensures
        (match spec_get_amount_out(ain, rin, rout) {
            Ok(aout) => aout < rout,
            Err(_) => true,
        }),
{
    if spec_get_amount_out(ain, rin, rout) is Ok {
        let f = ain * 997;
        let d = rin * 1000 + f;
        assert(f * rout < d * rout) by (nonlinear_arith)
            requires
                f < d,
                rout > 0,
        ;
        vstd::arithmetic::div_mod::lemma_multiply_divide_lt((f * rout) as int, d as int, rout as int);
    }
}

/// The verdict of `verify_constant_product_invariant`: with the pool fee
/// charged on the input legs, the adjusted product must not fall below the
/// product of the prior reserves.
pub open spec fn spec_constant_product_check(
    b0: nat,
    b1: nat,
    a0in: nat,
    a1in: nat,
    r0: nat,
    r1: nat,
) -> Result<(), PairError> {
    if b0 * 1000 >= pow256() || a0in * (FEE_BPS as nat) >= pow256() {
        Err(PairError::Overflow)
    } else if b0 * 1000 < a0in * (FEE_BPS as nat) {
        Err(PairError::Overflow)
    } else if b1 * 1000 >= pow256() || a1in * (FEE_BPS as nat) >= pow256() {
        Err(PairError::Overflow)
    } else if b1 * 1000 < a1in * (FEE_BPS as nat) {
        Err(PairError::Overflow)
    } else if (b0 * 1000 - a0in * (FEE_BPS as nat)) * (b1 * 1000 - a1in * (FEE_BPS as nat))
        >= pow256() {
        Err(PairError::Overflow)
    } else if r0 * r1 >= pow256() || (r0 * r1) * 1000000 >= pow256() {
        Err(PairError::Overflow)
    } else if (b0 * 1000 - a0in * (FEE_BPS as nat)) * (b1 * 1000 - a1in * (FEE_BPS as nat)) < (r0
        * r1) * 1000000 {
        Err(PairError::InvariantViolation)
    } else {
        Ok(())
    }
}

/// Checks the constant-product invariant after a swap: each new balance is
/// scaled by 1000 and charged the 0.30% fee on its input leg, and the product
/// of the adjusted balances must reach `r0·r1·1000²`.
pub fn verify_constant_product_invariant(
    balance0: U256,
    balance1: U256,
    amount0_in: U256,
    amount1_in: U256,
    reserve0: U256,
    reserve1: U256,
) -> (r: Result<(), PairError>)
    ensures
        r == spec_constant_product_check(
            balance0.as_nat(),
            balance1.as_nat(),
            amount0_in.as_nat(),
            amount1_in.as_nat(),
            reserve0.as_nat(),
            reserve1.as_nat(),
        ),
{
    let thousand = U256::from_u64(1000);
    let fee = U256::from_u64(FEE_BPS);
    let balance0_adjusted = match balance0.checked_mul(&thousand) {
        Some(s) => match amount0_in.checked_mul(&fee) {
            Some(f) => match s.checked_sub(&f) {
                Some(v) => v,
                None => {
                    return Err(PairError::Overflow);
                },
            },
            None => {
                return Err(PairError::Overflow);
            },
        },
        None => {
            return Err(PairError::Overflow);
        },
    };
    let balance1_adjusted = match balance1.checked_mul(&thousand) {
        Some(s) => match amount1_in.checked_mul(&fee) {
            Some(f) => match s.checked_sub(&f) {
                Some(v) => v,
                None => {
                    return Err(PairError::Overflow);
                },
            },
            None => {
                return Err(PairError::Overflow);
            },
        },
        None => {
            return Err(PairError::Overflow);
        },
    };
    let k_new = match balance0_adjusted.checked_mul(&balance1_adjusted) {
        Some(v) => v,
        None => {
            return Err(PairError::Overflow);
        },
    };
    let k_old_part = match reserve0.checked_mul(&reserve1) {
        Some(v) => v,
        None => {
            return Err(PairError::Overflow);
        },
    };
    let k_old = match k_old_part.checked_mul(&U256::from_u64(1000000)) {
        Some(v) => v,
        None => {
            return Err(PairError::Overflow);
        },
    };
    if k_new.lt(&k_old) {
        return Err(PairError::InvariantViolation);
    }
    Ok(())
}

} // verus!

