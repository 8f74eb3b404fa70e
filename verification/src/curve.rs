use vstd::arithmetic::div_mod::{lemma_fundamental_div_mod, lemma_mod_bound};
use vstd::prelude::*;

use crate::errors::AmmError;

verus! {

/// Fee rates are expressed in basis points: a fee of `b` basis points keeps
/// `(FEE_SCALE - b) / FEE_SCALE` of the input working in the trade.
pub const FEE_SCALE: u64 = 10_000;

/// The part of the input that trades against the reserves after the fee is
/// taken: `amount_in * (FEE_SCALE - fee_bps) / FEE_SCALE`, truncated, so the
/// rounding loss stays with the pool.
pub open spec fn spec_effective_in(amount_in: int, fee_bps: int) -> int {
    amount_in * (FEE_SCALE - fee_bps) / (FEE_SCALE as int)
}

/// Division rounded towards positive infinity, for positive divisors.
pub open spec fn spec_div_ceil(num: int, den: int) -> int {
    (num + den - 1) / den
}

/// The quoted output of a trade: the pool keeps its reserve product from
/// shrinking by paying out `reserve_out - ceil(reserve_in * reserve_out /
/// (reserve_in + effective_in))`. Rounding the retained side up always
/// favors the pool.
pub open spec fn spec_quote(reserve_in: int, reserve_out: int, fee_bps: int, amount_in: int) -> int {
    reserve_out - spec_div_ceil(
        reserve_in * reserve_out,
        reserve_in + spec_effective_in(amount_in, fee_bps),
    )
}

/// The fee-reduced input is never negative and never exceeds the input; a
/// nonzero fee strictly shrinks a nonzero input, and a zero fee keeps it
/// whole.
pub proof fn lemma_effective_in_bounds(amount_in: int, fee_bps: int)
    requires
        amount_in >= 1,
        0 <= fee_bps < FEE_SCALE,
    ensures
        0 <= spec_effective_in(amount_in, fee_bps) <= amount_in,
        fee_bps >= 1 ==> spec_effective_in(amount_in, fee_bps) <= amount_in - 1,
        fee_bps == 0 ==> spec_effective_in(amount_in, fee_bps) == amount_in,
{
    let scale = FEE_SCALE as int;
    let kept = amount_in * (scale - fee_bps);
    lemma_fundamental_div_mod(kept, scale);
    lemma_mod_bound(kept, scale);
    assert(kept >= 0) by (nonlinear_arith)
        requires
            kept == amount_in * (scale - fee_bps),
            amount_in >= 1,
            fee_bps < scale,
    ;
    assert(kept <= amount_in * scale - amount_in * fee_bps) by (nonlinear_arith)
        requires
            kept == amount_in * (scale - fee_bps),
    ;
    let e = kept / scale;
    assert(kept == scale * e + kept % scale);
    assert(e >= 0) by (nonlinear_arith)
        requires
            kept == scale * e + kept % scale,
            kept >= 0,
            0 <= kept % scale < scale,
            scale > 0,
    ;
    assert(e <= amount_in) by (nonlinear_arith)
        requires
            kept == scale * e + kept % scale,
            kept <= amount_in * scale,
            0 <= kept % scale,
            scale > 0,
    ;
    if fee_bps >= 1 {
        assert(kept <= amount_in * scale - amount_in) by (nonlinear_arith)
            requires
                kept <= amount_in * scale - amount_in * fee_bps,
                amount_in >= 1,
                fee_bps >= 1,
        ;
        assert(e <= amount_in - 1) by (nonlinear_arith)
            requires
                kept == scale * e + kept % scale,
                kept <= amount_in * scale - amount_in,
                0 <= kept % scale < scale,
                scale > 0,
                amount_in >= 1,
        ;
    }
    if fee_bps == 0 {
        assert(kept == amount_in * scale) by (nonlinear_arith)
            requires
                kept == amount_in * (scale - 0),
        ;
        assert(e == amount_in) by (nonlinear_arith)
            requires
                kept == scale * e + kept % scale,
                kept == amount_in * scale,
                0 <= kept % scale < scale,
                scale > 0,
        ;
    }
}

/// The rounded-up quotient covers the numerator (`q * den >= num`) and is
/// the least integer that does (`(q - 1) * den < num`); a positive
/// numerator makes it positive.
pub proof fn lemma_div_ceil_bounds(num: int, den: int)
    requires
        num >= 1,
        den >= 1,
    ensures
        spec_div_ceil(num, den) * den >= num,
        (spec_div_ceil(num, den) - 1) * den < num,
        spec_div_ceil(num, den) >= 1,
{
    let x = num + den - 1;
    lemma_fundamental_div_mod(x, den);
    lemma_mod_bound(x, den);
    let q = x / den;
    assert(q * den >= num) by (nonlinear_arith)
        requires
            x == den * q + x % den,
            x == num + den - 1,
            0 <= x % den < den,
    ;
    assert((q - 1) * den < num) by (nonlinear_arith)
        requires
            x == den * q + x % den,
            x == num + den - 1,
            0 <= x % den < den,
    ;
    assert(q >= 1) by (nonlinear_arith)
        requires
            q * den >= num,
            num >= 1,
            den >= 1,
    ;
}

/// Bounds that every successful quote obeys: the pool is never drained
/// (`0 <= out < reserve_out`), the reserve product never shrinks, measured
/// either against the fee-reduced input or against the full input, and a
/// nonzero fee grows the product strictly.
pub proof fn lemma_quote_bounds(reserve_in: int, reserve_out: int, fee_bps: int, amount_in: int)
    requires
        reserve_in >= 1,
        reserve_out >= 1,
        amount_in >= 1,
        0 <= fee_bps < FEE_SCALE,
    ensures
        0 <= spec_quote(reserve_in, reserve_out, fee_bps, amount_in) < reserve_out,
        (reserve_in + spec_effective_in(amount_in, fee_bps)) * (reserve_out - spec_quote(
            reserve_in,
            reserve_out,
            fee_bps,
            amount_in,
        )) >= reserve_in * reserve_out,
        (reserve_in + amount_in) * (reserve_out - spec_quote(reserve_in, reserve_out, fee_bps, amount_in))
            >= reserve_in * reserve_out,
        fee_bps >= 1 ==> (reserve_in + amount_in) * (reserve_out - spec_quote(
            reserve_in,
            reserve_out,
            fee_bps,
            amount_in,
        )) > reserve_in * reserve_out,
{
    let e = spec_effective_in(amount_in, fee_bps);
    lemma_effective_in_bounds(amount_in, fee_bps);
    let num = reserve_in * reserve_out;
    let den = reserve_in + e;
    assert(num >= 1) by (nonlinear_arith)
        requires
            reserve_in >= 1,
            reserve_out >= 1,
            num == reserve_in * reserve_out,
    ;
    lemma_div_ceil_bounds(num, den);
    let q = spec_div_ceil(num, den);
    let out = reserve_out - q;
    // q <= reserve_out, so out >= 0: a larger quotient would overshoot num.
    assert(q <= reserve_out) by (nonlinear_arith)
        requires
            (q - 1) * den < num,
            num == reserve_in * reserve_out,
            den == reserve_in + e,
            e >= 0,
            reserve_in >= 1,
            reserve_out >= 1,
    ;
    // den * q >= num is the product bound with the fee-reduced input.
    assert((reserve_in + e) * (reserve_out - out) >= reserve_in * reserve_out) by (nonlinear_arith)
        requires
            q * den >= num,
            num == reserve_in * reserve_out,
            den == reserve_in + e,
            out == reserve_out - q,
    ;
    // The full input is at least the fee-reduced one, and q >= 1.
    assert((reserve_in + amount_in) * (reserve_out - out) >= reserve_in * reserve_out) by (nonlinear_arith)
        requires
            (reserve_in + e) * (reserve_out - out) >= reserve_in * reserve_out,
            amount_in >= e,
            reserve_out - out >= 1,
    ;
    if fee_bps >= 1 {
        assert((reserve_in + amount_in) * (reserve_out - out) > reserve_in * reserve_out) by (nonlinear_arith)
            requires
                (reserve_in + e) * (reserve_out - out) >= reserve_in * reserve_out,
                amount_in >= e + 1,
                reserve_out - out >= 1,
        ;
    }
}

/// A round trip loses value: selling `amount_in` of one asset and then
/// selling the entire proceeds straight back buys strictly less than
/// `amount_in`, for any nonzero fee. (With a zero fee the round trip can
/// return exactly `amount_in`, so that case is excluded; a first trade
/// whose quote is zero cannot be swapped back at all.)
pub proof fn lemma_round_trip(rx: int, ry: int, fee_bps: int, amount_in: int)
    requires
        rx >= 1,
        ry >= 1,
        amount_in >= 1,
        1 <= fee_bps < FEE_SCALE,
        spec_quote(rx, ry, fee_bps, amount_in) >= 1,
    ensures
        spec_quote(
            ry - spec_quote(rx, ry, fee_bps, amount_in),
            rx + amount_in,
            fee_bps,
            spec_quote(rx, ry, fee_bps, amount_in),
        ) < amount_in,
{
    let a = amount_in;
    let e1 = spec_effective_in(a, fee_bps);
    lemma_effective_in_bounds(a, fee_bps);
    let num1 = rx * ry;
    let den1 = rx + e1;
    assert(num1 >= 1) by (nonlinear_arith)
        requires
            rx >= 1,
            ry >= 1,
            num1 == rx * ry,
    ;
    lemma_div_ceil_bounds(num1, den1);
    let q1 = spec_div_ceil(num1, den1);
    let out1 = ry - q1;
    assert(out1 == spec_quote(rx, ry, fee_bps, a));
    // The first trade already covered the old product, so what the pool
    // kept of the outgoing asset earns at least the full reserve product.
    assert(q1 * e1 >= rx * out1) by (nonlinear_arith)
        requires
            q1 * den1 >= num1,
            num1 == rx * ry,
            den1 == rx + e1,
            out1 == ry - q1,
    ;
    // Second trade, in the opposite direction, on the updated reserves.
    let e2 = spec_effective_in(out1, fee_bps);
    lemma_effective_in_bounds(out1, fee_bps);
    let num2 = q1 * (rx + a);
    let den2 = q1 + e2;
    assert(num2 >= 1) by (nonlinear_arith)
        requires
            q1 >= 1,
            rx + a >= 2,
            num2 == q1 * (rx + a),
    ;
    lemma_div_ceil_bounds(num2, den2);
    let q2 = spec_div_ceil(num2, den2);
    // The fee clips the returned input twice, so the second quote cannot
    // reach back past the original reserve of the first asset.
    assert(q1 * a > rx * e2) by (nonlinear_arith)
        requires
            q1 * e1 >= rx * out1,
            a >= e1 + 1,
            e2 <= out1 - 1,
            q1 >= 1,
            rx >= 1,
    ;
    assert(num2 > rx * den2) by (nonlinear_arith)
        requires
            q1 * a > rx * e2,
            num2 == q1 * (rx + a),
            den2 == q1 + e2,
    ;
    assert(q2 > rx) by (nonlinear_arith)
        requires
            q2 * den2 >= num2,
            num2 > rx * den2,
            den2 >= 1,
    ;
    assert(ry - out1 == q1);
    assert(spec_quote(ry - out1, rx + a, fee_bps, out1) == (rx + a) - q2);
}

/// Quote one trade: how much of the outgoing asset a deposit of `amount_in`
/// of the incoming asset buys, at the current reserves and fee. Pure: the
/// caller settles the transfers. Rejects a zero input and empty reserves;
/// on any other input it returns exactly the constant-product quote,
/// which never drains the outgoing reserve.
pub fn swap_quote(reserve_in: u64, reserve_out: u64, fee_bps: u16, amount_in: u64) -> (r: Result<
    u64,
    AmmError,
>)
    requires
        fee_bps < FEE_SCALE,
    ensures
        amount_in == 0 ==> r == Err::<u64, AmmError>(AmmError::InvalidAmount),
        amount_in > 0 && (reserve_in == 0 || reserve_out == 0) ==> r == Err::<u64, AmmError>(
            AmmError::InsufficientLiquidity,
        ),
        amount_in > 0 && reserve_in > 0 && reserve_out > 0 ==> (r matches Ok(out)
            && out == spec_quote(reserve_in as int, reserve_out as int, fee_bps as int, amount_in as int)
            && out < reserve_out),
{
    if amount_in == 0 {
        return Err(AmmError::InvalidAmount);
    }
    if reserve_in == 0 || reserve_out == 0 {
        return Err(AmmError::InsufficientLiquidity);
    }
    let keep: u64 = FEE_SCALE - (fee_bps as u64);
    proof {
        lemma_effective_in_bounds(amount_in as int, fee_bps as int);
        assert((amount_in as int) * (keep as int) <= u64::MAX * (FEE_SCALE as int)) by (nonlinear_arith)
            requires
                amount_in <= u64::MAX,
                0 < keep <= FEE_SCALE,
        ;
    }
    let effective_in: u128 = (amount_in as u128) * (keep as u128) / (FEE_SCALE as u128);
    proof {
        assert((reserve_in as int) * (reserve_out as int) + 2 * (u64::MAX as int)
            <= 0xffff_ffff_ffff_ffff_ffff_ffff_ffff_ffff) by (nonlinear_arith)
            requires
                reserve_in <= 0xffff_ffff_ffff_ffffu64,
                reserve_out <= 0xffff_ffff_ffff_ffffu64,
                u64::MAX == 0xffff_ffff_ffff_ffffu64,
        ;
    }
    let num: u128 = (reserve_in as u128) * (reserve_out as u128);
    let den: u128 = (reserve_in as u128) + effective_in;
    proof {
        lemma_quote_bounds(reserve_in as int, reserve_out as int, fee_bps as int, amount_in as int);
    }
    let q: u128 = (num + den - 1) / den;
    let out: u128 = (reserve_out as u128) - q;
    Ok(out as u64)
}

} // verus!
