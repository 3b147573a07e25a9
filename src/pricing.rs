use vstd::prelude::*;
use vstd::arithmetic::mul::lemma_mul_upper_bound;
use crate::error::ErrorCode;
use crate::math::{
    basis_point_fee, buy_cost, ceil_div, fee_of, lemma_ceil_div, lemma_ceil_div_bounds, sell_value,
    MathUtils,
};
use crate::snapshot::{Direction, ReserveSnapshot, Strategy, TradeQuote};

verus! {

/// Output of a constant-product swap: putting `amount_in` into the reserve `reserve_in`
/// leaves `k / (reserve_in + amount_in)`, rounded up in the curve's favour, in the other
/// reserve, where `k = reserve_in * reserve_out`; the difference goes out.
pub open spec fn curve_output(reserve_in: int, reserve_out: int, amount_in: int) -> int {
    reserve_out - ceil_div(reserve_in * reserve_out, reserve_in + amount_in)
}

/// The virtual reserve that a trade in `direction` pays into.
pub open spec fn input_reserve(s: ReserveSnapshot, direction: Direction) -> u64 {
    match direction {
        Direction::Buy => s.virtual_quote_reserves,
        Direction::Sell => s.virtual_base_reserves,
    }
}

/// The virtual reserve that a trade in `direction` takes its output from.
pub open spec fn output_reserve(s: ReserveSnapshot, direction: Direction) -> u64 {
    match direction {
        Direction::Buy => s.virtual_base_reserves,
        Direction::Sell => s.virtual_quote_reserves,
    }
}

/// The quote for trading `amount` against `s` in `direction`, or the first check it fails:
/// a completed curve, a zero amount, a zero virtual reserve, an output that is zero or
/// would drain the output reserve, a fee larger than the output, a fee that takes the
/// whole output.
pub open spec fn quote_outcome(s: ReserveSnapshot, direction: Direction, amount: u64) -> Result<
    TradeQuote,
    ErrorCode,
> {
    let rout = output_reserve(s, direction) as int;
    let gross = curve_output(input_reserve(s, direction) as int, rout, amount as int);
    let fee = fee_of(gross, s.fee_basis_points as int);
    if s.is_complete {
        Err(ErrorCode::CurveComplete)
    } else if amount == 0 {
        Err(ErrorCode::InvalidAmount)
    } else if s.virtual_base_reserves == 0 || s.virtual_quote_reserves == 0 {
        Err(ErrorCode::DegenerateCurve)
    } else if gross == 0 || gross >= rout {
        Err(ErrorCode::InsufficientReserves)
    } else if fee > gross {
        Err(ErrorCode::Underflow)
    } else if fee == gross {
        Err(ErrorCode::InsufficientReserves)
    } else {
        Ok(
            TradeQuote {
                amount_in: amount,
                gross_amount_out: gross as u64,
                fee_amount: fee as u64,
                net_amount_out: (gross - fee) as u64,
                direction,
            },
        )
    }
}

/// The base asset outside the curve's custody: the supply of the polynomial strategy.
pub open spec fn circulating_supply(s: ReserveSnapshot) -> int {
    s.total_supply - s.real_base_reserves
}

/// What a polynomial trade of `amount` base units is worth in quote asset: the cost of a
/// buy or the value of a sell at the circulating supply, with the whole supply as maximum.
pub open spec fn polynomial_price(s: ReserveSnapshot, direction: Direction, amount: u64, base_price: u64) -> Result<
    u64,
    ErrorCode,
> {
    let supply = circulating_supply(s) as u64;
    match direction {
        Direction::Buy => buy_cost(supply, amount, base_price, s.total_supply),
        Direction::Sell => sell_value(supply, amount, base_price, s.total_supply),
    }
}

/// The quote for a polynomial trade of `amount` base units, or the first check it fails:
/// a completed curve, a zero amount, a zero virtual reserve, more base in custody than
/// the whole supply, a failed price, a buy priced at nothing, a gross output that is
/// zero or would drain the output reserve, a fee larger than the output, a fee that
/// takes the whole output. A buy's input is its price and its gross output the base
/// units; a sell's input is the base units and its gross output the price.
pub open spec fn polynomial_quote_outcome(
    s: ReserveSnapshot,
    direction: Direction,
    amount: u64,
    base_price: u64,
) -> Result<TradeQuote, ErrorCode> {
    if s.is_complete {
        Err(ErrorCode::CurveComplete)
    } else if amount == 0 {
        Err(ErrorCode::InvalidAmount)
    } else if s.virtual_base_reserves == 0 || s.virtual_quote_reserves == 0 {
        Err(ErrorCode::DegenerateCurve)
    } else if s.real_base_reserves > s.total_supply {
        Err(ErrorCode::SupplyExceeded)
    } else {
        match polynomial_price(s, direction, amount, base_price) {
            Err(e) => Err(e),
            Ok(price) => if direction == Direction::Buy && price == 0 {
                Err(ErrorCode::InvalidAmount)
            } else {
                let amount_in = match direction {
                    Direction::Buy => price,
                    Direction::Sell => amount,
                };
                let gross = match direction {
                    Direction::Buy => amount,
                    Direction::Sell => price,
                };
                let fee = fee_of(gross as int, s.fee_basis_points as int);
                if gross == 0 || gross >= output_reserve(s, direction) {
                    Err(ErrorCode::InsufficientReserves)
                } else if fee > gross {
                    Err(ErrorCode::Underflow)
                } else if fee == gross {
                    Err(ErrorCode::InsufficientReserves)
                } else {
                    Ok(
                        TradeQuote {
                            amount_in,
                            gross_amount_out: gross,
                            fee_amount: fee as u64,
                            net_amount_out: (gross - fee) as u64,
                            direction,
                        },
                    )
                }
            },
        }
    }
}

/// The quote for a trade of `amount` in `direction` under `strategy`.
pub open spec fn strategy_quote_outcome(
    s: ReserveSnapshot,
    strategy: Strategy,
    direction: Direction,
    amount: u64,
) -> Result<TradeQuote, ErrorCode> {
    match strategy {
        Strategy::ConstantProduct => quote_outcome(s, direction, amount),
        Strategy::Polynomial { base_price } => polynomial_quote_outcome(
            s,
            direction,
            amount,
            base_price,
        ),
    }
}

/// The output reserve shrinks by at most all of itself: `0 <= curve_output <= reserve_out`.
pub proof fn lemma_curve_output_bounds(reserve_in: int, reserve_out: int, amount_in: int)
    requires
        reserve_in >= 0,
        reserve_in + amount_in > 0,
        reserve_out >= 0,
        amount_in >= 0,
    ensures
        0 <= curve_output(reserve_in, reserve_out, amount_in) <= reserve_out,
{
    let k = reserve_in * reserve_out;
    let n = reserve_in + amount_in;
    assert(0 <= k <= n * reserve_out) by (nonlinear_arith)
        requires
            k == reserve_in * reserve_out,
            reserve_in >= 0,
            reserve_out >= 0,
            n >= reserve_in,
    ;
    lemma_ceil_div(k, n);
    lemma_ceil_div_bounds(k, k, n, reserve_out);
}

/// Constant-product output for `amount_in` paid into `reserve_in`, taken from
/// `reserve_out`; the product is formed in 128 bits.
pub fn constant_product_output(reserve_in: u64, reserve_out: u64, amount_in: u64) -> (r: u64)
    requires
        reserve_in + amount_in > 0,
    ensures
        r == curve_output(reserve_in as int, reserve_out as int, amount_in as int),
{
    proof {
        lemma_mul_upper_bound(
            reserve_in as int,
            u64::MAX as int,
            reserve_out as int,
            u64::MAX as int,
        );
        lemma_curve_output_bounds(reserve_in as int, reserve_out as int, amount_in as int);
    }
    let k: u128 = reserve_in as u128 * reserve_out as u128;
    let new_in: u128 = reserve_in as u128 + amount_in as u128;
    let new_out: u128 = (k + new_in - 1) / new_in;
    (reserve_out as u128 - new_out) as u64
}

/// What must be paid into `reserve_in` to take exactly `amount_out` from `reserve_out`:
/// the input reserve grows to `k / (reserve_out - amount_out)`, rounded up in the curve's
/// favour.
pub open spec fn exact_output_cost(reserve_in: int, reserve_out: int, amount_out: int) -> int {
    ceil_div(reserve_in * reserve_out, reserve_out - amount_out) - reserve_in
}

/// The input needed to take exactly `amount_out` from `reserve_out`, or `Overflow` where
/// it does not fit in 64 bits.
pub fn exact_output_input(reserve_in: u64, reserve_out: u64, amount_out: u64) -> (r: Result<
    u64,
    ErrorCode,
>)
    requires
        amount_out < reserve_out,
    ensures
        exact_output_cost(reserve_in as int, reserve_out as int, amount_out as int) <= u64::MAX
            ==> r == Ok::<u64, ErrorCode>(
            exact_output_cost(reserve_in as int, reserve_out as int, amount_out as int) as u64,
        ),
        exact_output_cost(reserve_in as int, reserve_out as int, amount_out as int) > u64::MAX
            ==> r == Err::<u64, ErrorCode>(ErrorCode::Overflow),
        0 <= exact_output_cost(reserve_in as int, reserve_out as int, amount_out as int),
{
    let remaining = reserve_out - amount_out;
    proof {
        lemma_mul_upper_bound(
            reserve_in as int,
            u64::MAX as int,
            reserve_out as int,
            u64::MAX as int,
        );
        let k = reserve_in as int * reserve_out as int;
        let d = remaining as int;
        assert(d * reserve_in <= k) by (nonlinear_arith)
            requires
                k == reserve_in as int * reserve_out as int,
                0 < d <= reserve_out,
                reserve_in >= 0,
        ;
        lemma_ceil_div(k, d);
        assert(ceil_div(k, d) >= reserve_in) by (nonlinear_arith)
            requires
                d * reserve_in <= k,
                k <= d * ceil_div(k, d),
                d > 0,
        ;
    }
    let k: u128 = reserve_in as u128 * reserve_out as u128;
    let grown: u128 = (k + remaining as u128 - 1) / remaining as u128;
    let cost: u128 = grown - reserve_in as u128;
    if cost > u64::MAX as u128 {
        return Err(ErrorCode::Overflow);
    }
    Ok(cost as u64)
}

/// A constant-product swap never lowers the product of the two reserves.
pub proof fn lemma_curve_output_keeps_product(reserve_in: int, reserve_out: int, amount_in: int)
    requires
        reserve_in >= 0,
        reserve_in + amount_in > 0,
        reserve_out >= 0,
        amount_in >= 0,
    ensures
        (reserve_in + amount_in) * (reserve_out - curve_output(reserve_in, reserve_out, amount_in))
            >= reserve_in * reserve_out,
{
    let k = reserve_in * reserve_out;
    assert(k >= 0) by (nonlinear_arith)
        requires
            k == reserve_in * reserve_out,
            reserve_in >= 0,
            reserve_out >= 0,
    ;
    lemma_ceil_div(k, reserve_in + amount_in);
}

/// Buying exactly `amount_out` at its cost never lowers the product of the reserves, and
/// selling the same amount straight back returns at most that cost.
pub proof fn lemma_exact_output_round_trip(reserve_in: int, reserve_out: int, amount_out: int)
    requires
        reserve_in >= 0,
        0 <= amount_out < reserve_out,
    ensures
        ({
            let c = exact_output_cost(reserve_in, reserve_out, amount_out);
            &&& c >= 0
            &&& (reserve_out - amount_out) * (reserve_in + c) >= reserve_in * reserve_out
            &&& curve_output(reserve_out - amount_out, reserve_in + c, amount_out) <= c
        }),
{
    let k = reserve_in * reserve_out;
    let d = reserve_out - amount_out;
    assert(k >= 0) by (nonlinear_arith)
        requires
            k == reserve_in * reserve_out,
            reserve_in >= 0,
            reserve_out > 0,
    ;
    lemma_ceil_div(k, d);
    let big = ceil_div(k, d);
    assert(d * reserve_in <= k) by (nonlinear_arith)
        requires
            k == reserve_in * reserve_out,
            0 < d <= reserve_out,
            reserve_in >= 0,
    ;
    assert(big >= reserve_in) by (nonlinear_arith)
        requires
            d * reserve_in <= k,
            k <= d * big,
            d > 0,
    ;
    assert(d * big >= 0) by (nonlinear_arith)
        requires
            d > 0,
            big >= 0,
    ;
    lemma_ceil_div_bounds(k, d * big, reserve_out, reserve_in);
    assert(reserve_in * reserve_out == k);
    assert(d + amount_out == reserve_out);
}

/// Sol needed to take exactly `token_amount` tokens off a curve with the given virtual
/// reserves, or the first check it fails: a completed curve, a zero amount, an empty
/// reserve, an amount that would drain the tokens, a cost that does not fit.
pub open spec fn exact_buy_price(
    complete: bool,
    virtual_sol: u64,
    virtual_token: u64,
    token_amount: u64,
) -> Result<u64, ErrorCode> {
    let v = exact_output_cost(virtual_sol as int, virtual_token as int, token_amount as int);
    if complete {
        Err(ErrorCode::CurveComplete)
    } else if token_amount == 0 {
        Err(ErrorCode::InvalidAmount)
    } else if virtual_sol == 0 || virtual_token == 0 {
        Err(ErrorCode::DegenerateCurve)
    } else if token_amount >= virtual_token {
        Err(ErrorCode::InsufficientReserves)
    } else if v > u64::MAX {
        Err(ErrorCode::Overflow)
    } else {
        Ok(v as u64)
    }
}

/// Sol returned for putting `token_amount` tokens back into a curve with the given
/// virtual reserves, or the first check it fails: a completed curve, a zero amount, an
/// empty reserve, a token reserve that would overflow.
pub open spec fn sell_price(complete: bool, virtual_sol: u64, virtual_token: u64, token_amount: u64) -> Result<
    u64,
    ErrorCode,
> {
    if complete {
        Err(ErrorCode::CurveComplete)
    } else if token_amount == 0 {
        Err(ErrorCode::InvalidAmount)
    } else if virtual_sol == 0 || virtual_token == 0 {
        Err(ErrorCode::DegenerateCurve)
    } else if virtual_token + token_amount > u64::MAX {
        Err(ErrorCode::Overflow)
    } else {
        Ok(curve_output(virtual_token as int, virtual_sol as int, token_amount as int) as u64)
    }
}

/// The exact-output buy price; the reserves after the buy multiply to at least as much
/// as before.
pub fn price_exact_buy(complete: bool, virtual_sol: u64, virtual_token: u64, token_amount: u64) -> (r:
    Result<u64, ErrorCode>)
    ensures
        r == exact_buy_price(complete, virtual_sol, virtual_token, token_amount),
        r matches Ok(c) ==> (virtual_token - token_amount) * (virtual_sol + c) >= virtual_sol
            * virtual_token,
{
    if complete {
        return Err(ErrorCode::CurveComplete);
    }
    if token_amount == 0 {
        return Err(ErrorCode::InvalidAmount);
    }
    if virtual_sol == 0 || virtual_token == 0 {
        return Err(ErrorCode::DegenerateCurve);
    }
    if token_amount >= virtual_token {
        return Err(ErrorCode::InsufficientReserves);
    }
    proof {
        lemma_exact_output_round_trip(virtual_sol as int, virtual_token as int, token_amount as int);
    }
    exact_output_input(virtual_sol, virtual_token, token_amount)
}

/// The sell price; the reserves after the sell multiply to at least as much as before,
/// and the sol reserve is never drained.
pub fn price_sell(complete: bool, virtual_sol: u64, virtual_token: u64, token_amount: u64) -> (r:
    Result<u64, ErrorCode>)
    ensures
        r == sell_price(complete, virtual_sol, virtual_token, token_amount),
        r matches Ok(p) ==> p < virtual_sol && (virtual_token + token_amount) * (virtual_sol - p)
            >= virtual_sol * virtual_token,
{
    if complete {
        return Err(ErrorCode::CurveComplete);
    }
    if token_amount == 0 {
        return Err(ErrorCode::InvalidAmount);
    }
    if virtual_sol == 0 || virtual_token == 0 {
        return Err(ErrorCode::DegenerateCurve);
    }
    if virtual_token > u64::MAX - token_amount {
        return Err(ErrorCode::Overflow);
    }
    proof {
        let k = virtual_token as int * virtual_sol as int;
        let n = virtual_token as int + token_amount as int;
        lemma_curve_output_bounds(virtual_token as int, virtual_sol as int, token_amount as int);
        lemma_curve_output_keeps_product(
            virtual_token as int,
            virtual_sol as int,
            token_amount as int,
        );
        assert(k >= 1) by (nonlinear_arith)
            requires
                k == virtual_token as int * virtual_sol as int,
                virtual_token >= 1,
                virtual_sol >= 1,
        ;
        lemma_ceil_div(k, n);
        assert(virtual_sol as int * virtual_token as int == k) by (nonlinear_arith)
            requires
                k == virtual_token as int * virtual_sol as int,
        ;
        let c = ceil_div(k, n);
        assert(c >= 1) by (nonlinear_arith)
            requires
                k >= 1,
                n >= 1,
                k <= n * c,
                c >= 0,
        ;
        assert(curve_output(virtual_token as int, virtual_sol as int, token_amount as int)
            == virtual_sol - c);
    }
    Ok(constant_product_output(virtual_token, virtual_sol, token_amount))
}

/// Prices a polynomial trade of `amount` base units against `snapshot`, deducting the
/// curve's fee from the gross output.
pub fn polynomial_quote(snapshot: &ReserveSnapshot, direction: Direction, amount: u64, base_price: u64) -> (r:
    Result<TradeQuote, ErrorCode>)
    ensures
        r == polynomial_quote_outcome(*snapshot, direction, amount, base_price),
{
    if snapshot.is_complete {
        return Err(ErrorCode::CurveComplete);
    }
    if amount == 0 {
        return Err(ErrorCode::InvalidAmount);
    }
    if snapshot.virtual_base_reserves == 0 || snapshot.virtual_quote_reserves == 0 {
        return Err(ErrorCode::DegenerateCurve);
    }
    if snapshot.real_base_reserves > snapshot.total_supply {
        return Err(ErrorCode::SupplyExceeded);
    }
    let supply = snapshot.total_supply - snapshot.real_base_reserves;
    let (amount_in, gross, reserve_out) = match direction {
        Direction::Buy => {
            let price = MathUtils::calculate_buy_price(supply, amount, base_price, snapshot.total_supply)?;
            if price == 0 {
                return Err(ErrorCode::InvalidAmount);
            }
            (price, amount, snapshot.virtual_base_reserves)
        },
        Direction::Sell => {
            let price = MathUtils::calculate_sell_price(supply, amount, base_price, snapshot.total_supply)?;
            (amount, price, snapshot.virtual_quote_reserves)
        },
    };
    if gross == 0 || gross >= reserve_out {
        return Err(ErrorCode::InsufficientReserves);
    }
    let fee = basis_point_fee(gross, snapshot.fee_basis_points as u64);
    if fee > gross as u128 {
        return Err(ErrorCode::Underflow);
    }
    if fee == gross as u128 {
        return Err(ErrorCode::InsufficientReserves);
    }
    let fee = fee as u64;
    Ok(
        TradeQuote {
            amount_in,
            gross_amount_out: gross,
            fee_amount: fee,
            net_amount_out: gross - fee,
            direction,
        },
    )
}

/// Prices a trade of `amount` in `direction` under `strategy`.
pub fn quote_with(snapshot: &ReserveSnapshot, strategy: Strategy, direction: Direction, amount: u64) -> (r:
    Result<TradeQuote, ErrorCode>)
    ensures
        r == strategy_quote_outcome(*snapshot, strategy, direction, amount),
{
    match strategy {
        Strategy::ConstantProduct => quote(snapshot, direction, amount),
        Strategy::Polynomial { base_price } => polynomial_quote(snapshot, direction, amount, base_price),
    }
}

/// Prices a trade of `amount` against the constant-product curve of `snapshot`,
/// deducting the curve's fee from the gross output.
pub fn quote(snapshot: &ReserveSnapshot, direction: Direction, amount: u64) -> (r: Result<
    TradeQuote,
    ErrorCode,
>)
    ensures
        r == quote_outcome(*snapshot, direction, amount),
{
    if snapshot.is_complete {
        return Err(ErrorCode::CurveComplete);
    }
    if amount == 0 {
        return Err(ErrorCode::InvalidAmount);
    }
    if snapshot.virtual_base_reserves == 0 || snapshot.virtual_quote_reserves == 0 {
        return Err(ErrorCode::DegenerateCurve);
    }
    let (reserve_in, reserve_out) = match direction {
        Direction::Buy => (snapshot.virtual_quote_reserves, snapshot.virtual_base_reserves),
        Direction::Sell => (snapshot.virtual_base_reserves, snapshot.virtual_quote_reserves),
    };
    let gross = constant_product_output(reserve_in, reserve_out, amount);
    if gross == 0 || gross >= reserve_out {
        return Err(ErrorCode::InsufficientReserves);
    }
    let fee = basis_point_fee(gross, snapshot.fee_basis_points as u64);
    if fee > gross as u128 {
        return Err(ErrorCode::Underflow);
    }
    if fee == gross as u128 {
        return Err(ErrorCode::InsufficientReserves);
    }
    let fee = fee as u64;
    Ok(
        TradeQuote {
            amount_in: amount,
            gross_amount_out: gross,
            fee_amount: fee,
            net_amount_out: gross - fee,
            direction,
        },
    )
}

} // verus!
