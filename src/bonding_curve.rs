use vstd::prelude::*;
use vstd::arithmetic::div_mod::{lemma_div_is_ordered, lemma_multiply_divide_lt};
use vstd::arithmetic::mul::lemma_mul_upper_bound;
use crate::error::ErrorCode;
use crate::math::lemma_split_division;
use crate::pricing::{
    curve_output, exact_buy_price, exact_output_cost, lemma_curve_output_bounds,
    lemma_exact_output_round_trip,
    price_exact_buy, price_sell, sell_price,
};

verus! {

/// Custodied sol reserve at which a launched curve completes.
pub const GRADUATION_THRESHOLD: u64 = 85_000_000_000;

/// Fixed-point scale of the market-cap computation.
pub const PRICE_SCALE: u64 = 1_000_000_000;

/// The reserves of a launched token's curve: virtual reserves for pricing, real ones
/// held in custody, the fixed supply, whether trading has completed, and the real sol
/// reserve at which it completes.
#[derive(Debug, Clone, Copy, PartialEq, Eq, Structural)]
pub struct BondingCurve {
    pub virtual_token_reserves: u64,
    pub virtual_sol_reserves: u64,
    pub real_token_reserves: u64,
    pub real_sol_reserves: u64,
    pub token_total_supply: u64,
    pub complete: bool,
    pub graduation_threshold: u64,
}

/// The curve after a buy of `token_amount` for `sol_amount`, or the first check that
/// fails: a completed curve, a buy that would empty the virtual tokens, then the
/// checked steps on virtual sol, real tokens and real sol.
pub open spec fn after_buy(c: BondingCurve, token_amount: u64, sol_amount: u64) -> Result<
    BondingCurve,
    ErrorCode,
> {
    if c.complete {
        Err(ErrorCode::CurveComplete)
    } else if token_amount >= c.virtual_token_reserves {
        Err(ErrorCode::InsufficientReserves)
    } else if c.virtual_sol_reserves + sol_amount > u64::MAX {
        Err(ErrorCode::Overflow)
    } else if token_amount > c.real_token_reserves {
        Err(ErrorCode::Underflow)
    } else if c.real_sol_reserves + sol_amount > u64::MAX {
        Err(ErrorCode::Overflow)
    } else {
        Ok(
            BondingCurve {
                virtual_token_reserves: (c.virtual_token_reserves - token_amount) as u64,
                virtual_sol_reserves: (c.virtual_sol_reserves + sol_amount) as u64,
                real_token_reserves: (c.real_token_reserves - token_amount) as u64,
                real_sol_reserves: (c.real_sol_reserves + sol_amount) as u64,
                ..c
            },
        )
    }
}

/// The curve after a sell of `token_amount` for `sol_amount`, or the first check that
/// fails: a completed curve, the checked step on virtual tokens, a sell that would
/// empty the virtual sol, then the checked steps on real tokens and real sol.
pub open spec fn after_sell(c: BondingCurve, token_amount: u64, sol_amount: u64) -> Result<
    BondingCurve,
    ErrorCode,
> {
    if c.complete {
        Err(ErrorCode::CurveComplete)
    } else if c.virtual_token_reserves + token_amount > u64::MAX {
        Err(ErrorCode::Overflow)
    } else if sol_amount >= c.virtual_sol_reserves {
        Err(ErrorCode::InsufficientReserves)
    } else if c.real_token_reserves + token_amount > u64::MAX {
        Err(ErrorCode::Overflow)
    } else if sol_amount > c.real_sol_reserves {
        Err(ErrorCode::Underflow)
    } else {
        Ok(
            BondingCurve {
                virtual_token_reserves: (c.virtual_token_reserves + token_amount) as u64,
                virtual_sol_reserves: (c.virtual_sol_reserves - sol_amount) as u64,
                real_token_reserves: (c.real_token_reserves + token_amount) as u64,
                real_sol_reserves: (c.real_sol_reserves - sol_amount) as u64,
                ..c
            },
        )
    }
}

/// Price of one token at the virtual reserves, scaled by `PRICE_SCALE`.
pub open spec fn scaled_token_price(c: BondingCurve) -> int {
    c.virtual_sol_reserves as int * PRICE_SCALE as int / c.virtual_token_reserves as int
}

/// Whole supply valued at the scaled token price.
pub open spec fn market_cap_of(c: BondingCurve) -> int {
    c.token_total_supply as int * scaled_token_price(c) / PRICE_SCALE as int
}

/// The product of the record's virtual reserves.
pub open spec fn record_product(c: BondingCurve) -> int {
    c.virtual_token_reserves as int * c.virtual_sol_reserves as int
}

/// No arbitrage on the curve record: buying exactly `token_amount` tokens at the
/// record's price and recording the buy never lowers the reserve product, and selling
/// the same tokens straight back returns at most what the buy cost.
pub proof fn lemma_record_round_trip(c: BondingCurve, token_amount: u64)
    requires
        exact_buy_price(c.complete, c.virtual_sol_reserves, c.virtual_token_reserves, token_amount) is Ok,
        after_buy(
            c,
            token_amount,
            exact_buy_price(
                c.complete,
                c.virtual_sol_reserves,
                c.virtual_token_reserves,
                token_amount,
            )->Ok_0,
        ) is Ok,
    ensures
        ({
            let cost = exact_buy_price(
                c.complete,
                c.virtual_sol_reserves,
                c.virtual_token_reserves,
                token_amount,
            )->Ok_0;
            let bought = after_buy(c, token_amount, cost)->Ok_0;
            &&& record_product(bought) >= record_product(c)
            &&& sell_price(
                bought.complete,
                bought.virtual_sol_reserves,
                bought.virtual_token_reserves,
                token_amount,
            ) matches Ok(p) ==> p <= cost
        }),
{
    let vs = c.virtual_sol_reserves as int;
    let vt = c.virtual_token_reserves as int;
    let t = token_amount as int;
    lemma_exact_output_round_trip(vs, vt, t);
    let cost = exact_buy_price(c.complete, c.virtual_sol_reserves, c.virtual_token_reserves, token_amount)->Ok_0;
    let bought = after_buy(c, token_amount, cost)->Ok_0;
    assert(cost as int == exact_output_cost(vs, vt, t));
    assert(bought.virtual_token_reserves == vt - t);
    assert(bought.virtual_sol_reserves == vs + cost);
    assert((vt - t) * (vs + cost) >= vs * vt);
    assert(vs * vt == vt * vs) by (nonlinear_arith);
    assert(record_product(bought) == (vt - t) * (vs + cost));
    assert(curve_output(vt - t, vs + cost, t) <= cost);
    lemma_curve_output_bounds(vt - t, vs + cost, t);
}

impl BondingCurve {
    /// Sol needed to take exactly `token_amount` tokens off the curve, rounded up in the
    /// curve's favour.
    pub fn calculate_buy_price(&self, token_amount: u64) -> (r: Result<u64, ErrorCode>)
        ensures
            r == exact_buy_price(
                self.complete,
                self.virtual_sol_reserves,
                self.virtual_token_reserves,
                token_amount,
            ),
            r matches Ok(c) ==> (self.virtual_token_reserves - token_amount) * (
            self.virtual_sol_reserves + c) >= self.virtual_sol_reserves * self.virtual_token_reserves,
    {
        price_exact_buy(
            self.complete,
            self.virtual_sol_reserves,
            self.virtual_token_reserves,
            token_amount,
        )
    }

    /// Sol returned for putting `token_amount` tokens back into the curve, rounded down in
    /// the curve's favour.
    pub fn calculate_sell_price(&self, token_amount: u64) -> (r: Result<u64, ErrorCode>)
        ensures
            r == sell_price(
                self.complete,
                self.virtual_sol_reserves,
                self.virtual_token_reserves,
                token_amount,
            ),
            r matches Ok(p) ==> p < self.virtual_sol_reserves && (self.virtual_token_reserves
                + token_amount) * (self.virtual_sol_reserves - p) >= self.virtual_sol_reserves
                * self.virtual_token_reserves,
    {
        price_sell(
            self.complete,
            self.virtual_sol_reserves,
            self.virtual_token_reserves,
            token_amount,
        )
    }

    /// Records a buy on an open curve: `token_amount` leaves both token reserves,
    /// `sol_amount` joins both sol reserves. The virtual token reserve is never emptied;
    /// all four updates are checked and made together or not at all.
    pub fn update_reserves_buy(&mut self, token_amount: u64, sol_amount: u64) -> (r: Result<
        (),
        ErrorCode,
    >)
        ensures
            r is Ok <==> after_buy(*old(self), token_amount, sol_amount) is Ok,
            r is Ok ==> *final(self) == after_buy(*old(self), token_amount, sol_amount)->Ok_0,
            r is Err ==> *final(self) == *old(self) && r == Err::<(), ErrorCode>(
                after_buy(*old(self), token_amount, sol_amount)->Err_0,
            ),
    {
        if self.complete {
            return Err(ErrorCode::CurveComplete);
        }
        if token_amount >= self.virtual_token_reserves {
            return Err(ErrorCode::InsufficientReserves);
        }
        if self.virtual_sol_reserves > u64::MAX - sol_amount {
            return Err(ErrorCode::Overflow);
        }
        if token_amount > self.real_token_reserves {
            return Err(ErrorCode::Underflow);
        }
        if self.real_sol_reserves > u64::MAX - sol_amount {
            return Err(ErrorCode::Overflow);
        }
        self.virtual_token_reserves = self.virtual_token_reserves - token_amount;
        self.virtual_sol_reserves = self.virtual_sol_reserves + sol_amount;
        self.real_token_reserves = self.real_token_reserves - token_amount;
        self.real_sol_reserves = self.real_sol_reserves + sol_amount;
        Ok(())
    }

    /// Records a sell on an open curve: `token_amount` joins both token reserves,
    /// `sol_amount` leaves both sol reserves. The virtual sol reserve is never emptied;
    /// all four updates are checked and made together or not at all.
    pub fn update_reserves_sell(&mut self, token_amount: u64, sol_amount: u64) -> (r: Result<
        (),
        ErrorCode,
    >)
        ensures
            r is Ok <==> after_sell(*old(self), token_amount, sol_amount) is Ok,
            r is Ok ==> *final(self) == after_sell(*old(self), token_amount, sol_amount)->Ok_0,
            r is Err ==> *final(self) == *old(self) && r == Err::<(), ErrorCode>(
                after_sell(*old(self), token_amount, sol_amount)->Err_0,
            ),
    {
        if self.complete {
            return Err(ErrorCode::CurveComplete);
        }
        if self.virtual_token_reserves > u64::MAX - token_amount {
            return Err(ErrorCode::Overflow);
        }
        if sol_amount >= self.virtual_sol_reserves {
            return Err(ErrorCode::InsufficientReserves);
        }
        if self.real_token_reserves > u64::MAX - token_amount {
            return Err(ErrorCode::Overflow);
        }
        if sol_amount > self.real_sol_reserves {
            return Err(ErrorCode::Underflow);
        }
        self.virtual_token_reserves = self.virtual_token_reserves + token_amount;
        self.virtual_sol_reserves = self.virtual_sol_reserves - sol_amount;
        self.real_token_reserves = self.real_token_reserves + token_amount;
        self.real_sol_reserves = self.real_sol_reserves - sol_amount;
        Ok(())
    }

    /// Marks the curve complete once its real sol reserve reaches its graduation threshold,
    /// and says whether it has; a complete curve stays complete. Never fails.
    pub fn check_completion(&mut self) -> (r: Result<bool, ErrorCode>)
        ensures
            r == Ok::<bool, ErrorCode>(
                old(self).real_sol_reserves >= old(self).graduation_threshold,
            ),
            *final(self) == (BondingCurve {
                complete: old(self).complete || old(self).real_sol_reserves
                    >= old(self).graduation_threshold,
                ..*old(self)
            }),
    {
        if self.real_sol_reserves >= self.graduation_threshold {
            self.complete = true;
            return Ok(true);
        }
        Ok(false)
    }

    /// Value of the whole supply at the current virtual price; 0 when no virtual token
    /// reserve is left, `Overflow` where the value does not fit.
    pub fn get_market_cap(&self) -> (r: Result<u64, ErrorCode>)
        ensures
            self.virtual_token_reserves == 0 ==> r == Ok::<u64, ErrorCode>(0),
            self.virtual_token_reserves > 0 ==> {
                let v = market_cap_of(*self);
                &&& v <= u64::MAX ==> r == Ok::<u64, ErrorCode>(v as u64)
                &&& v > u64::MAX ==> r == Err::<u64, ErrorCode>(ErrorCode::Overflow)
            },
    {
        if self.virtual_token_reserves == 0 {
            return Ok(0);
        }
        let scale: u128 = PRICE_SCALE as u128;
        proof {
            lemma_mul_upper_bound(
                self.virtual_sol_reserves as int,
                u64::MAX as int,
                PRICE_SCALE as int,
                PRICE_SCALE as int,
            );
        }
        let price: u128 = self.virtual_sol_reserves as u128 * scale / self.virtual_token_reserves as u128;
        let supply: u128 = self.token_total_supply as u128;
        let whole: u128 = price / scale;
        let part: u128 = price % scale;
        proof {
            lemma_split_division(price as int, supply as int, scale as int);
            assert(self.virtual_sol_reserves as int * PRICE_SCALE as int / PRICE_SCALE as int
                == self.virtual_sol_reserves as int) by (nonlinear_arith);
            lemma_div_is_ordered(
                price as int,
                self.virtual_sol_reserves as int * PRICE_SCALE as int,
                self.virtual_token_reserves as int,
            );
            assert(price <= self.virtual_sol_reserves as int * PRICE_SCALE as int) by (nonlinear_arith)
                requires
                    price == self.virtual_sol_reserves as int * PRICE_SCALE as int
                        / self.virtual_token_reserves as int,
                    self.virtual_token_reserves >= 1,
                    self.virtual_sol_reserves >= 0,
            ;
            lemma_div_is_ordered(
                price as int,
                self.virtual_sol_reserves as int * PRICE_SCALE as int,
                PRICE_SCALE as int,
            );
            lemma_mul_upper_bound(whole as int, u64::MAX as int, supply as int, u64::MAX as int);
            lemma_mul_upper_bound(part as int, PRICE_SCALE as int, supply as int, u64::MAX as int);
            lemma_div_is_ordered(
                part as int * supply as int,
                PRICE_SCALE as int * u64::MAX as int,
                PRICE_SCALE as int,
            );
            assert(PRICE_SCALE as int * u64::MAX as int / PRICE_SCALE as int == u64::MAX as int)
                by (nonlinear_arith);
            assert(whole * supply == supply * whole) by (nonlinear_arith);
            assert(supply * price == price * supply) by (nonlinear_arith);
            assert(price as int == scaled_token_price(*self));
        }
        let cap: u128 = whole * supply + part * supply / scale;
        assert(cap == market_cap_of(*self));
        if cap > u64::MAX as u128 {
            return Err(ErrorCode::Overflow);
        }
        Ok(cap as u64)
    }

    /// Share of the graduation threshold already held in sol, in whole percent, at most
    /// 100. Never fails.
    pub fn get_progress_percentage(&self) -> (r: Result<u8, ErrorCode>)
        ensures
            self.real_sol_reserves >= self.graduation_threshold ==> r == Ok::<u8, ErrorCode>(100),
            self.real_sol_reserves < self.graduation_threshold ==> r == Ok::<u8, ErrorCode>(
                (self.real_sol_reserves * 100 / self.graduation_threshold as int) as u8,
            ),
    {
        if self.real_sol_reserves >= self.graduation_threshold {
            return Ok(100);
        }
        let scaled: u128 = self.real_sol_reserves as u128 * 100;
        proof {
            lemma_multiply_divide_lt(scaled as int, self.graduation_threshold as int, 100);
        }
        Ok((scaled / self.graduation_threshold as u128) as u8)
    }
}

} // verus!
