use vstd::prelude::*;
use vstd::arithmetic::mul::lemma_mul_is_commutative;
use crate::engine::{plain_request, trade_outcome};
use crate::error::ErrorCode;
use crate::math::{
    ceil_div, curve_integral, fee_of, lemma_ceil_div, lemma_ceil_div_bounds, lemma_integral_monotone,
};
use crate::pricing::{
    circulating_supply, curve_output, input_reserve, lemma_curve_output_bounds, output_reserve,
};
use crate::snapshot::{Direction, ReserveSnapshot, Strategy, TradeRequest, TradeResult};

verus! {

/// The other side of the curve.
pub open spec fn opposite(direction: Direction) -> Direction {
    match direction {
        Direction::Buy => Direction::Sell,
        Direction::Sell => Direction::Buy,
    }
}

/// A trade of `amount` in `direction`, then at once a trade back of all it returned.
pub open spec fn round_trip(s: ReserveSnapshot, direction: Direction, amount: u64) -> Result<
    (TradeResult, TradeResult),
    ErrorCode,
> {
    match trade_outcome(s, plain_request(direction, amount)) {
        Err(e) => Err(e),
        Ok(first) => match trade_outcome(
            first.new_snapshot,
            plain_request(opposite(direction), first.amount_out),
        ) {
            Err(e) => Err(e),
            Ok(second) => Ok((first, second)),
        },
    }
}

/// After a swap of `a` into `rin` with `f` held back from the output, the reserves
/// multiply to the new input reserve times the rounded-up share of `k` left in the
/// output reserve, plus the fee times the new input reserve.
pub proof fn lemma_swap_product(rin: int, rout: int, a: int, f: int)
    requires
        rin > 0,
        rout >= 0,
        a >= 0,
    ensures
        (rout - (curve_output(rin, rout, a) - f)) * (rin + a) == (rin + a) * ceil_div(
            rin * rout,
            rin + a,
        ) + (rin + a) * f,
        rin * rout <= (rin + a) * ceil_div(rin * rout, rin + a) < rin * rout + (rin + a),
        (rin * rout) % (rin + a) == 0 ==> (rin + a) * ceil_div(rin * rout, rin + a) == rin * rout,
{
    let k = rin * rout;
    let n = rin + a;
    assert(k >= 0) by (nonlinear_arith)
        requires
            k == rin * rout,
            rin > 0,
            rout >= 0,
    ;
    lemma_ceil_div(k, n);
    let c = ceil_div(k, n);
    assert(rout - (curve_output(rin, rout, a) - f) == c + f);
    assert((c + f) * n == n * c + n * f) by (nonlinear_arith);
}

/// Swapping back all that a swap returned never returns more than was put in: both
/// swaps leave the rounded-up share in the curve, so the product only grows.
pub proof fn lemma_swap_back_no_gain(rin: int, rout: int, a: int, f1: int, f2: int)
    requires
        rin > 0,
        rout > 0,
        a > 0,
        0 <= f1 <= curve_output(rin, rout, a),
        f2 >= 0,
    ensures
        ({
            let n1 = curve_output(rin, rout, a) - f1;
            curve_output(rout - n1, rin + a, n1) - f2 <= a
        }),
{
    let k = rin * rout;
    let n = rin + a;
    let n1 = curve_output(rin, rout, a) - f1;
    lemma_curve_output_bounds(rin, rout, a);
    lemma_swap_product(rin, rout, a, f1);
    let c1 = ceil_div(k, n);
    let k2 = (rout - n1) * n;
    assert(n * c1 + n * f1 >= n * c1) by (nonlinear_arith)
        requires
            n > 0,
            f1 >= 0,
    ;
    assert(k2 >= k);
    assert(k >= 0) by (nonlinear_arith)
        requires
            k == rin * rout,
            rin > 0,
            rout > 0,
    ;
    lemma_ceil_div_bounds(k, k2, rout, rin);
    assert(rin * rout == k);
    assert(ceil_div(k, rout) == rin);
    assert(rout - n1 + n1 == rout);
}

/// The product of the virtual reserves after a successful constant-product trade is
/// the new input reserve times the rounded-up share of the old product left in the
/// output reserve, plus the fee times the new input reserve. So no trade lowers the
/// product; a trade that keeps a fee strictly raises it; one that keeps none (every
/// trade at a zero fee rate) raises it by less than the new input reserve, and leaves
/// it unchanged when the division is exact.
pub proof fn lemma_trade_product(s: ReserveSnapshot, direction: Direction, amount: u64)
    requires
        trade_outcome(s, plain_request(direction, amount)) is Ok,
    ensures
        ({
            let t = trade_outcome(s, plain_request(direction, amount))->Ok_0;
            let n = input_reserve(s, direction) + amount;
            &&& t.new_snapshot.product() == n * ceil_div(s.product(), n) + n * t.fee_amount
            &&& t.new_snapshot.product() >= s.product()
            &&& t.fee_amount > 0 ==> t.new_snapshot.product() > s.product()
            &&& t.fee_amount == 0 ==> t.new_snapshot.product() < s.product() + n
            &&& (t.fee_amount == 0 && s.product() % n == 0) ==> t.new_snapshot.product()
                == s.product()
            &&& s.fee_basis_points == 0 ==> t.fee_amount == 0
        }),
{
    let t = trade_outcome(s, plain_request(direction, amount))->Ok_0;
    let rin = input_reserve(s, direction) as int;
    let rout = output_reserve(s, direction) as int;
    let n = rin + amount;
    let f = t.fee_amount as int;
    lemma_curve_output_bounds(rin, rout, amount as int);
    let gross = curve_output(rin, rout, amount as int);
    assert(fee_of(gross, s.fee_basis_points as int) >= 0) by (nonlinear_arith)
        requires
            gross >= 0,
            s.fee_basis_points >= 0,
    ;
    lemma_swap_product(rin, rout, amount as int, f);
    lemma_mul_is_commutative(rin, rout);
    lemma_mul_is_commutative(rout - (gross - f), n);
    let c = ceil_div(s.product(), n);
    if f > 0 {
        assert(n * f >= n) by (nonlinear_arith)
            requires
                n > 0,
                f >= 1,
        ;
    }
    if f == 0 {
        assert(n * f == 0) by (nonlinear_arith)
            requires
                f == 0,
        ;
    }
    assert(n * f >= 0) by (nonlinear_arith)
        requires
            n > 0,
            f >= 0,
    ;
    if s.fee_basis_points == 0 {
        assert(gross * 0 == 0) by (nonlinear_arith);
    }
    let after = t.new_snapshot;
    match direction {
        Direction::Buy => {
            assert(after.virtual_base_reserves == rout - (gross - f));
            assert(after.virtual_quote_reserves == n);
        },
        Direction::Sell => {
            assert(after.virtual_base_reserves == n);
            assert(after.virtual_quote_reserves == rout - (gross - f));
        },
    }
    assert(after.product() == (rout - (gross - f)) * n);
    assert(after.product() == n * c + n * f);
    assert(after.product() >= s.product());
    assert(f > 0 ==> after.product() > s.product());
}

/// No arbitrage: trading `amount` one way on the constant-product curve and at once
/// trading all of its net output back never returns more than `amount`.
pub proof fn lemma_round_trip_no_gain(s: ReserveSnapshot, direction: Direction, amount: u64)
    requires
        round_trip(s, direction, amount) is Ok,
    ensures
        round_trip(s, direction, amount)->Ok_0.1.amount_out <= amount,
{
    let first = round_trip(s, direction, amount)->Ok_0.0;
    let mid = first.new_snapshot;
    let back = opposite(direction);
    let rin = input_reserve(s, direction) as int;
    let rout = output_reserve(s, direction) as int;
    lemma_curve_output_bounds(rin, rout, amount as int);
    let gross = curve_output(rin, rout, amount as int);
    assert(fee_of(gross, s.fee_basis_points as int) >= 0) by (nonlinear_arith)
        requires
            gross >= 0,
            s.fee_basis_points >= 0,
    ;
    lemma_mul_is_commutative(rin, rout);
    let n1 = first.amount_out;
    let rin2 = input_reserve(mid, back) as int;
    let rout2 = output_reserve(mid, back) as int;
    lemma_curve_output_bounds(rin2, rout2, n1 as int);
    let gross2 = curve_output(rin2, rout2, n1 as int);
    assert(fee_of(gross2, mid.fee_basis_points as int) >= 0) by (nonlinear_arith)
        requires
            gross2 >= 0,
            mid.fee_basis_points >= 0,
    ;
    let second = round_trip(s, direction, amount)->Ok_0.1;
    lemma_swap_back_no_gain(
        rin,
        rout,
        amount as int,
        first.fee_amount as int,
        second.fee_amount as int,
    );
}

/// A polynomial request for `amount` base units in `direction` with no slippage bound.
pub open spec fn polynomial_request(direction: Direction, amount: u64, base_price: u64) -> TradeRequest {
    TradeRequest {
        direction,
        amount,
        strategy: Strategy::Polynomial { base_price },
        min_amount_out: None,
        max_amount_in: None,
    }
}

/// No arbitrage on the polynomial curve: buying `amount` base units and at once selling
/// back all the base the buy delivered returns at most what the buy cost.
pub proof fn lemma_polynomial_buy_sell_no_gain(s: ReserveSnapshot, amount: u64, base_price: u64)
    requires
        trade_outcome(s, polynomial_request(Direction::Buy, amount, base_price)) is Ok,
        trade_outcome(
            trade_outcome(s, polynomial_request(Direction::Buy, amount, base_price))->Ok_0.new_snapshot,
            polynomial_request(
                Direction::Sell,
                trade_outcome(s, polynomial_request(Direction::Buy, amount, base_price))->Ok_0.amount_out,
                base_price,
            ),
        ) is Ok,
    ensures
        ({
            let first = trade_outcome(s, polynomial_request(Direction::Buy, amount, base_price))->Ok_0;
            let second = trade_outcome(
                first.new_snapshot,
                polynomial_request(Direction::Sell, first.amount_out, base_price),
            )->Ok_0;
            second.amount_out <= first.amount_in
        }),
{
    let first = trade_outcome(s, polynomial_request(Direction::Buy, amount, base_price))->Ok_0;
    let mid = first.new_snapshot;
    let second = trade_outcome(mid, polynomial_request(Direction::Sell, first.amount_out, base_price))->Ok_0;
    let s0 = circulating_supply(s);
    let n = first.amount_out as int;
    let total = s.total_supply as int;
    let bp = base_price as int;
    assert(fee_of(amount as int, s.fee_basis_points as int) >= 0) by (nonlinear_arith)
        requires
            amount >= 0,
            s.fee_basis_points >= 0,
    ;
    assert(circulating_supply(mid) == s0 + n);
    let value = second.amount_out as int + second.fee_amount as int;
    assert(fee_of(value, mid.fee_basis_points as int) >= 0) by (nonlinear_arith)
        requires
            value >= 0,
            mid.fee_basis_points >= 0,
    ;
    lemma_integral_monotone(s0 + n, s0 + amount, bp, total);
    lemma_integral_monotone(s0, s0 + n, bp, total);
    assert(n <= amount);
    assert(first.amount_in == curve_integral(s0 + amount, bp, total) - curve_integral(s0, bp, total));
    assert(mid.total_supply == total);
    assert(value == curve_integral(s0 + n, bp, total) - curve_integral(s0, bp, total));
    assert(second.amount_out <= value);
}

/// Selling `amount` base units on the polynomial curve and at once buying the same units
/// back costs at least what the sale paid out.
pub proof fn lemma_polynomial_sell_rebuy_no_gain(s: ReserveSnapshot, amount: u64, base_price: u64)
    requires
        trade_outcome(s, polynomial_request(Direction::Sell, amount, base_price)) is Ok,
        trade_outcome(
            trade_outcome(s, polynomial_request(Direction::Sell, amount, base_price))->Ok_0.new_snapshot,
            polynomial_request(Direction::Buy, amount, base_price),
        ) is Ok,
    ensures
        ({
            let first = trade_outcome(s, polynomial_request(Direction::Sell, amount, base_price))->Ok_0;
            let second = trade_outcome(
                first.new_snapshot,
                polynomial_request(Direction::Buy, amount, base_price),
            )->Ok_0;
            second.amount_in >= first.amount_out
        }),
{
    let first = trade_outcome(s, polynomial_request(Direction::Sell, amount, base_price))->Ok_0;
    let mid = first.new_snapshot;
    let s0 = circulating_supply(s);
    let value = first.amount_out as int + first.fee_amount as int;
    assert(fee_of(value, s.fee_basis_points as int) >= 0) by (nonlinear_arith)
        requires
            value >= 0,
            s.fee_basis_points >= 0,
    ;
    assert(circulating_supply(mid) == s0 - amount);
}

} // verus!
