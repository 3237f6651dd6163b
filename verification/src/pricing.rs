//! The spread and price of a trade.
//!
//! Everything here is integer arithmetic in basis points. The formulas are
//! stated over unbounded integers; the functions compute them in machine
//! words without wrapping.

use crate::context::{MatcherContext, BPS};
use crate::error::MatcherError;
use vstd::arithmetic::div_mod::{
    lemma_div_is_ordered, lemma_div_multiples_vanish, lemma_fundamental_div_mod_converse,
};
use vstd::arithmetic::mul::{lemma_mul_inequality, lemma_mul_is_commutative};
use vstd::prelude::*;

verus! {

/// A request to trade against the matcher.
#[derive(Clone, Copy, Debug, PartialEq, Eq)]
pub struct TradeRequest {
    /// Reference price, fixed point with six decimals.
    pub oracle_price: u64,
    /// Positive to buy, negative to sell.
    pub trade_size: i128,
}

/// A priced and accepted trade.
#[derive(Clone, Copy, Debug, PartialEq, Eq)]
pub struct Fill {
    /// The spread after the clamp.
    pub spread_bps: u64,
    /// The base fee that was added to the spread.
    pub fee_bps: u64,
    /// The execution price, fixed point with six decimals.
    pub exec_price: u64,
    /// The accepted size: the size that was asked for.
    pub size: i128,
    /// The inventory once the trade is booked.
    pub inventory: i128,
}

/// The absolute value of `x`.
pub open spec fn spec_magnitude(x: int) -> int {
    if x < 0 {
        -x
    } else {
        x
    }
}

/// The smaller of two numbers.
pub open spec fn lesser(a: int, b: int) -> int {
    if a <= b {
        a
    } else {
        b
    }
}

/// `x` moved into `[low, high]`.
pub open spec fn clamped(x: int, low: int, high: int) -> int {
    if x < low {
        low
    } else if x > high {
        high
    } else {
        x
    }
}

/// What a skewed inventory adds to the spread: the product of the impact
/// multiplier and the absolute inventory, held to 128 bits, divided by the
/// quoting depth. Nothing is added when either parameter is zero.
pub open spec fn spec_imbalance_cost(k_bps: int, inventory: int, liquidity: int) -> int {
    if liquidity > 0 && k_bps > 0 {
        lesser(k_bps * spec_magnitude(inventory), u128::MAX as int) / liquidity
    } else {
        0
    }
}

/// Insurance as a share of open interest in basis points, at most 10000.
pub open spec fn spec_coverage_bps(insurance: int, total_oi: int) -> int {
    lesser(insurance * 10000 / total_oi, 10000)
}

/// What the insurance coverage takes off the spread.
pub open spec fn spec_credibility_discount(insurance: int, total_oi: int, weight_bps: int) -> int {
    if weight_bps > 0 && total_oi > 0 {
        spec_coverage_bps(insurance, total_oi) * weight_bps / 10000
    } else {
        0
    }
}

/// The floor plus the imbalance cost less the discount, held to `[1, ceiling]`.
pub open spec fn spec_spread_bps(floor: int, ceiling: int, cost: int, discount: int) -> int {
    clamped(floor + cost - discount, 1, ceiling)
}

/// The spread that a record quotes.
pub open spec fn spec_quoted_spread(ctx: MatcherContext) -> int {
    spec_spread_bps(
        ctx.min_spread_bps as int,
        ctx.max_spread_bps as int,
        spec_imbalance_cost(
            ctx.imbalance_k_bps as int,
            ctx.inventory_base as int,
            ctx.liquidity_notional as int,
        ),
        spec_credibility_discount(
            ctx.insurance_snapshot as int,
            ctx.total_oi_snapshot as int,
            ctx.insurance_weight_bps as int,
        ),
    )
}

/// The oracle price marked up for a buy, or marked down for a sell by at most
/// the whole price.
pub open spec fn spec_execution_price(oracle_price: int, total_cost_bps: int, buy: bool) -> int {
    if buy {
        oracle_price * (10000 + total_cost_bps) / 10000
    } else {
        oracle_price * (10000 - lesser(total_cost_bps, 10000)) / 10000
    }
}

/// Whether the inventory `after` a trade can be stored and is within the cap.
pub open spec fn inventory_allowed(after: int, max_inventory_abs: int) -> bool {
    &&& i128::MIN <= after <= i128::MAX
    &&& max_inventory_abs > 0 ==> spec_magnitude(after) <= max_inventory_abs
}

/// The outcome of pricing `request` against `ctx`: the first check that fails,
/// or the fill.
pub open spec fn spec_quote(ctx: MatcherContext, request: TradeRequest) -> Result<
    Fill,
    MatcherError,
> {
    let after = ctx.inventory_base + request.trade_size;
    if request.oracle_price == 0 {
        Err(MatcherError::ZeroOraclePrice)
    } else if ctx.max_fill_abs > 0 && spec_magnitude(request.trade_size as int)
        > ctx.max_fill_abs {
        Err(MatcherError::FillLimitExceeded)
    } else if !inventory_allowed(after, ctx.max_inventory_abs as int) {
        Err(MatcherError::InventoryLimitExceeded)
    } else if ctx.max_spread_bps == 0 {
        Err(MatcherError::EmptySpreadRange)
    } else {
        let spread = spec_quoted_spread(ctx);
        Ok(
            Fill {
                spread_bps: spread as u64,
                fee_bps: ctx.base_fee_bps as u64,
                exec_price: lesser(
                    spec_execution_price(
                        request.oracle_price as int,
                        spread + ctx.base_fee_bps,
                        request.trade_size > 0,
                    ),
                    u64::MAX as int,
                ) as u64,
                size: request.trade_size,
                inventory: after as i128,
            },
        )
    }
}

/// The discount never falls when the insurance grows.
pub proof fn lemma_discount_monotone(lower: int, higher: int, total_oi: int, weight_bps: int)
    requires
        0 <= lower <= higher,
        total_oi > 0,
        weight_bps >= 0,
    ensures
        spec_credibility_discount(lower, total_oi, weight_bps) <= spec_credibility_discount(
            higher,
            total_oi,
            weight_bps,
        ),
{
    if weight_bps > 0 {
        lemma_div_is_ordered(lower * 10000, higher * 10000, total_oi);
        let c1 = spec_coverage_bps(lower, total_oi);
        let c2 = spec_coverage_bps(higher, total_oi);
        assert(c1 <= c2);
        lemma_mul_inequality(c1, c2, weight_bps);
        lemma_div_is_ordered(c1 * weight_bps, c2 * weight_bps, 10000);
    }
}

/// Once the insurance covers the open interest the discount is the whole weight.
pub proof fn lemma_discount_saturates(insurance: int, total_oi: int, weight_bps: int)
    requires
        insurance >= total_oi > 0,
        weight_bps >= 0,
    ensures
        spec_coverage_bps(insurance, total_oi) == 10000,
        spec_credibility_discount(insurance, total_oi, weight_bps) == weight_bps,
{
    lemma_div_is_ordered(total_oi * 10000, insurance * 10000, total_oi);
    lemma_mul_is_commutative(total_oi, 10000);
    lemma_div_multiples_vanish(10000, total_oi);
    if weight_bps > 0 {
        lemma_div_multiples_vanish(weight_bps, 10000);
    }
}

/// With no insurance there is no discount.
pub proof fn lemma_no_insurance_no_discount(total_oi: int, weight_bps: int)
    requires
        total_oi > 0,
        weight_bps >= 0,
    ensures
        spec_credibility_discount(0, total_oi, weight_bps) == 0,
{
    assert(0int * 10000 / total_oi == 0) by (nonlinear_arith)
        requires
            total_oi > 0,
    ;
    assert(0int * weight_bps / 10000 == 0) by (nonlinear_arith);
}

/// With no insurance and no imbalance cost, a floor that lies within
/// `[1, ceiling]` is the spread.
pub proof fn lemma_spread_is_floor(ctx: MatcherContext)
    requires
        ctx.insurance_snapshot == 0,
        ctx.total_oi_snapshot > 0,
        ctx.imbalance_k_bps == 0 || ctx.liquidity_notional == 0 || ctx.inventory_base == 0,
        1 <= ctx.min_spread_bps <= ctx.max_spread_bps,
    ensures
        spec_quoted_spread(ctx) == ctx.min_spread_bps,
{
    lemma_no_insurance_no_discount(ctx.total_oi_snapshot as int, ctx.insurance_weight_bps as int);
    if ctx.imbalance_k_bps > 0 && ctx.liquidity_notional > 0 {
        let k = ctx.imbalance_k_bps as int;
        let liq = ctx.liquidity_notional as int;
        assert(k * 0 / liq == 0) by (nonlinear_arith)
            requires
                liq > 0,
        ;
    }
}

/// An accepted trade respects every limit of the record: the spread lies in
/// `[1, ceiling]`, the size is the one asked for and within the fill cap, and
/// the inventory is the old one plus the size and within the inventory cap.
pub proof fn lemma_fill_within_limits(ctx: MatcherContext, request: TradeRequest, fill: Fill)
    requires
        spec_quote(ctx, request) == Ok::<Fill, MatcherError>(fill),
    ensures
        request.oracle_price > 0,
        1 <= fill.spread_bps <= ctx.max_spread_bps,
        fill.spread_bps == spec_quoted_spread(ctx),
        fill.fee_bps == ctx.base_fee_bps,
        fill.size == request.trade_size,
        ctx.max_fill_abs > 0 ==> spec_magnitude(fill.size as int) <= ctx.max_fill_abs,
        fill.inventory == ctx.inventory_base + request.trade_size,
        ctx.max_inventory_abs > 0 ==> spec_magnitude(fill.inventory as int)
            <= ctx.max_inventory_abs,
{
}

/// Whatever the inputs, a spread lies within `[1, ceiling]` when the ceiling
/// is at least one.
pub proof fn lemma_spread_in_range(floor: int, ceiling: int, cost: int, discount: int)
    requires
        ceiling >= 1,
    ensures
        1 <= spec_spread_bps(floor, ceiling, cost, discount) <= ceiling,
{
}

/// The absolute value of `x`.
pub fn magnitude(x: i128) -> (r: u128)
    ensures
        r == spec_magnitude(x as int),
{
    if x >= 0 {
        x as u128
    } else {
        ((-(x + 1)) as u128) + 1
    }
}

/// What a skewed inventory adds to the spread.
pub fn imbalance_cost(imbalance_k_bps: u32, inventory: i128, liquidity_notional: u128) -> (r:
    u128)
    ensures
        r == spec_imbalance_cost(
            imbalance_k_bps as int,
            inventory as int,
            liquidity_notional as int,
        ),
{
    if liquidity_notional > 0 && imbalance_k_bps > 0 {
        let product: u128 = match (imbalance_k_bps as u128).checked_mul(magnitude(inventory)) {
            Some(p) => p,
            None => u128::MAX,
        };
        product / liquidity_notional
    } else {
        0
    }
}

/// Doubles a quotient and remainder by `whole`, then adds `extra` to them.
fn double_and_add(quotient: u128, remainder: u128, whole: u128, extra: u128) -> (r: (u128, u128))
    requires
        remainder < whole,
        extra < whole,
        quotient <= u64::MAX,
    ensures
        r.0 * whole + r.1 == 2 * (quotient * whole + remainder) + extra,
        r.1 < whole,
        r.0 <= 2 * quotient + 2,
{
    let (q2, r2) = if remainder >= whole - remainder {
        (2 * quotient + 1, remainder - (whole - remainder))
    } else {
        (2 * quotient, remainder + remainder)
    };
    let (q3, r3) = if r2 >= whole - extra {
        (q2 + 1, r2 - (whole - extra))
    } else {
        (q2, r2 + extra)
    };
    proof {
        let q = quotient as int;
        let w = whole as int;
        assert((2 * q + 1) * w == 2 * (q * w) + w) by (nonlinear_arith);
        assert((2 * q + 2) * w == 2 * (q * w) + 2 * w) by (nonlinear_arith);
        assert((2 * q) * w == 2 * (q * w)) by (nonlinear_arith);
    }
    (q3, r3)
}

/// The quotient and remainder of `part * times` by `whole`, for a proper part.
/// The product may be wider than any machine word; it is never formed.
fn scaled_quotient(part: u128, whole: u128, times: u32) -> (r: (u128, u128))
    requires
        part < whole,
    ensures
        r.0 * whole + r.1 == part * times,
        r.1 < whole,
        r.0 <= times,
        r.0 == part * times / (whole as int),
    decreases times,
{
    if times == 0 {
        proof {
            let p = part as int;
            let w = whole as int;
            assert(p * 0 == 0) by (nonlinear_arith);
            assert(0 * w == 0) by (nonlinear_arith);
            lemma_fundamental_div_mod_converse(0, w, 0, 0);
        }
        (0, 0)
    } else {
        let half = scaled_quotient(part, whole, times / 2);
        let extra: u128 = if times % 2 == 1 {
            part
        } else {
            0
        };
        let r = double_and_add(half.0, half.1, whole, extra);
        proof {
            let p = part as int;
            let w = whole as int;
            let t = times as int;
            let h = (times / 2) as int;
            let bit = (times % 2) as int;
            assert(extra == p * bit) by (nonlinear_arith)
                requires
                    (bit == 1 && extra == p) || (bit == 0 && extra == 0),
            ;
            assert(2 * (p * h) + p * bit == p * t) by (nonlinear_arith)
                requires
                    t == 2 * h + bit,
            ;
            let q = r.0 as int;
            assert(q <= t) by (nonlinear_arith)
                requires
                    q * w + r.1 == p * t,
                    0 <= r.1,
                    0 <= p < w,
                    0 <= t,
                    0 <= q,
            ;
            lemma_fundamental_div_mod_converse(p * t, w, q, r.1 as int);
        }
        r
    }
}

/// Insurance as a share of open interest in basis points, at most 10000.
pub fn coverage_bps(insurance: u128, total_oi: u128) -> (r: u64)
    requires
        total_oi > 0,
    ensures
        r == spec_coverage_bps(insurance as int, total_oi as int),
        r <= 10000,
{
    if insurance >= total_oi {
        proof {
            lemma_discount_saturates(insurance as int, total_oi as int, 0);
        }
        10000
    } else {
        let r = scaled_quotient(insurance, total_oi, 10000);
        r.0 as u64
    }
}

/// What the insurance coverage takes off the spread.
pub fn credibility_discount(insurance: u128, total_oi: u128, insurance_weight_bps: u32) -> (r:
    u64)
    ensures
        r == spec_credibility_discount(
            insurance as int,
            total_oi as int,
            insurance_weight_bps as int,
        ),
        r <= insurance_weight_bps,
{
    if insurance_weight_bps > 0 && total_oi > 0 {
        let coverage: u64 = coverage_bps(insurance, total_oi);
        proof {
            let c = coverage as int;
            let w = insurance_weight_bps as int;
            assert(0 <= c * w <= 10000 * w) by (nonlinear_arith)
                requires
                    0 <= c <= 10000,
                    0 <= w,
            ;
            lemma_div_is_ordered(c * w, 10000 * w, 10000);
            lemma_mul_is_commutative(10000, w);
            lemma_div_multiples_vanish(w, 10000);
        }
        coverage * (insurance_weight_bps as u64) / BPS
    } else {
        0
    }
}

/// The floor plus the imbalance cost less the discount, held to
/// `[1, max_spread_bps]`.
pub fn spread_bps(min_spread_bps: u32, max_spread_bps: u32, cost: u128, discount: u64) -> (r: u64)
    requires
        max_spread_bps >= 1,
    ensures
        r == spec_spread_bps(
            min_spread_bps as int,
            max_spread_bps as int,
            cost as int,
            discount as int,
        ),
        1 <= r <= max_spread_bps,
{
    let raised: u128 = cost.saturating_add(min_spread_bps as u128);
    let lowered: u128 = raised.saturating_sub(discount as u128);
    if lowered < 1 {
        1
    } else if lowered > max_spread_bps as u128 {
        max_spread_bps as u64
    } else {
        lowered as u64
    }
}

/// The oracle price with the cost applied, held to 64 bits.
pub fn execution_price(oracle_price: u64, total_cost_bps: u64, buy: bool) -> (r: u64)
    ensures
        r == lesser(
            spec_execution_price(oracle_price as int, total_cost_bps as int, buy),
            u64::MAX as int,
        ),
{
    if buy {
        let factor: u128 = 10_000u128 + total_cost_bps as u128;
        match (oracle_price as u128).checked_mul(factor) {
            Some(numer) => {
                let price: u128 = numer / 10_000u128;
                if price > u64::MAX as u128 {
                    u64::MAX
                } else {
                    price as u64
                }
            },
            None => {
                proof {
                    let n = oracle_price as int * (10000 + total_cost_bps as int);
                    lemma_div_is_ordered(u128::MAX as int, n, 10000);
                }
                u64::MAX
            },
        }
    } else {
        let kept: u64 = if total_cost_bps > 10_000 {
            0
        } else {
            10_000 - total_cost_bps
        };
        proof {
            let o = oracle_price as int;
            let k = kept as int;
            assert(0 <= o * k <= o * 10000) by (nonlinear_arith)
                requires
                    0 <= o,
                    0 <= k <= 10000,
            ;
            lemma_div_is_ordered(o * k, o * 10000, 10000);
            lemma_div_multiples_vanish(o, 10000);
        }
        ((oracle_price as u128) * (kept as u128) / 10_000u128) as u64
    }
}

/// The spread that a record quotes.
pub fn quoted_spread(ctx: &MatcherContext) -> (r: u64)
    requires
        ctx.max_spread_bps >= 1,
    ensures
        r == spec_quoted_spread(*ctx),
        1 <= r <= ctx.max_spread_bps,
{
    let cost: u128 = imbalance_cost(ctx.imbalance_k_bps, ctx.inventory_base, ctx.liquidity_notional);
    let discount: u64 = credibility_discount(
        ctx.insurance_snapshot,
        ctx.total_oi_snapshot,
        ctx.insurance_weight_bps,
    );
    spread_bps(ctx.min_spread_bps, ctx.max_spread_bps, cost, discount)
}

/// Prices `request` against `ctx`: checks the oracle price and the risk
/// limits in that order, then quotes the spread and the execution price.
pub fn quote(ctx: &MatcherContext, request: &TradeRequest) -> (result: Result<Fill, MatcherError>)
    ensures
        result == spec_quote(*ctx, *request),
{
    if request.oracle_price == 0 {
        return Err(MatcherError::ZeroOraclePrice);
    }
    if ctx.max_fill_abs > 0 && magnitude(request.trade_size) > ctx.max_fill_abs {
        return Err(MatcherError::FillLimitExceeded);
    }
    let inventory: i128 = match ctx.inventory_base.checked_add(request.trade_size) {
        Some(sum) => sum,
        None => {
            return Err(MatcherError::InventoryLimitExceeded);
        },
    };
    if ctx.max_inventory_abs > 0 && magnitude(inventory) > ctx.max_inventory_abs {
        return Err(MatcherError::InventoryLimitExceeded);
    }
    if ctx.max_spread_bps == 0 {
        return Err(MatcherError::EmptySpreadRange);
    }
    let spread: u64 = quoted_spread(ctx);
    let fee: u64 = ctx.base_fee_bps as u64;
    let exec_price: u64 = execution_price(request.oracle_price, spread + fee, request.trade_size > 0);
    Ok(Fill { spread_bps: spread, fee_bps: fee, exec_price, size: request.trade_size, inventory })
}

} // verus!
