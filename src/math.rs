use vstd::prelude::*;
use vstd::arithmetic::div_mod::{
    lemma_div_is_ordered, lemma_fundamental_div_mod, lemma_fundamental_div_mod_converse,
    lemma_mod_pos_bound, lemma_multiply_divide_le, lemma_multiply_divide_lt,
};
use vstd::arithmetic::mul::{lemma_mul_inequality, lemma_mul_upper_bound};
use crate::error::ErrorCode;

verus! {

/// Basis points in the whole: a rate of this many basis points is 100%.
pub const BASIS_POINTS_DIVISOR: u64 = 10_000;

/// `floor(amount * fee_basis_points / 10000)`: the fee on `amount` at the given rate.
pub open spec fn fee_of(amount: int, fee_basis_points: int) -> int {
    amount * fee_basis_points / BASIS_POINTS_DIVISOR as int
}

/// `a / d` rounded up.
pub open spec fn ceil_div(a: int, d: int) -> int {
    (a + d - 1) / d
}

/// The rounded-up quotient times the divisor covers `a` by less than one divisor, and is
/// exactly `a` when `d` divides it.
pub proof fn lemma_ceil_div(a: int, d: int)
    requires
        a >= 0,
        d > 0,
    ensures
        ceil_div(a, d) >= 0,
        a <= d * ceil_div(a, d) < a + d,
        a % d == 0 ==> d * ceil_div(a, d) == a,
{
    let c = ceil_div(a, d);
    lemma_fundamental_div_mod(a + d - 1, d);
    lemma_mod_pos_bound(a + d - 1, d);
    lemma_div_is_ordered(0, a + d - 1, d);
    if a % d == 0 {
        lemma_fundamental_div_mod(a, d);
        let q = a / d;
        lemma_fundamental_div_mod_converse(a + d - 1, d, q, d - 1);
        assert(d * q == q * d) by (nonlinear_arith);
    }
}

/// Rounding up keeps order, and stays at or below any `q` with `a <= d * q`.
pub proof fn lemma_ceil_div_bounds(a: int, b: int, d: int, q: int)
    requires
        0 <= a <= b,
        d > 0,
    ensures
        ceil_div(a, d) <= ceil_div(b, d),
        a <= d * q ==> ceil_div(a, d) <= q,
        ceil_div(q * d, d) == q,
{
    lemma_div_is_ordered(a + d - 1, b + d - 1, d);
    if a <= d * q {
        assert(a + d - 1 < d * (q + 1)) by (nonlinear_arith)
            requires
                a <= d * q,
                d > 0,
        ;
        lemma_multiply_divide_lt(a + d - 1, d, q + 1);
    }
    lemma_fundamental_div_mod_converse(q * d + d - 1, d, q, d - 1);
}

/// A rate of zero takes nothing, and a rate of at most the whole takes at most the amount.
pub proof fn lemma_fee_within_amount(amount: int, fee_basis_points: int)
    requires
        amount >= 0,
        fee_basis_points >= 0,
    ensures
        fee_basis_points == 0 ==> fee_of(amount, fee_basis_points) == 0,
        fee_basis_points <= BASIS_POINTS_DIVISOR ==> 0 <= fee_of(amount, fee_basis_points) <= amount,
{
    let d = BASIS_POINTS_DIVISOR as int;
    if fee_basis_points == 0 {
        assert(amount * fee_basis_points == 0) by (nonlinear_arith)
            requires
                fee_basis_points == 0,
        ;
    }
    if fee_basis_points <= d {
        assert(0 <= amount * fee_basis_points <= amount * d) by (nonlinear_arith)
            requires
                amount >= 0,
                0 <= fee_basis_points <= d,
        ;
        lemma_div_is_ordered(0, amount * fee_basis_points, d);
        lemma_div_is_ordered(amount * fee_basis_points, amount * d, d);
        assert(amount * d / d == amount) by (nonlinear_arith)
            requires
                d > 0,
        ;
    }
}

/// The fee on `amount`, in double width so that the product cannot wrap.
pub fn basis_point_fee(amount: u64, fee_basis_points: u64) -> (r: u128)
    ensures
        r == fee_of(amount as int, fee_basis_points as int),
{
    proof {
        lemma_mul_upper_bound(
            amount as int,
            u64::MAX as int,
            fee_basis_points as int,
            u64::MAX as int,
        );
    }
    let product: u128 = amount as u128 * fee_basis_points as u128;
    product / (BASIS_POINTS_DIVISOR as u128)
}

/// Fixed-point scale of the polynomial curve: `PRECISION` stands for 1.
pub const PRECISION: u64 = 1_000_000;

/// `supply / max_supply` in fixed point, truncated.
pub open spec fn supply_ratio(supply: int, max_supply: int) -> int {
    supply * PRECISION as int / max_supply
}

/// Three times `1 + r + r^2 / 3`, scaled by `PRECISION`, for a fixed-point `r`, with
/// `r^2` truncated to the fixed-point scale.
pub open spec fn integral_factor(r: int) -> int {
    3 * PRECISION as int + 3 * r + r * r / PRECISION as int
}

/// The area under `base_price * (1 + x / max_supply)^2` from 0 to `supply`, which is
/// `base_price * supply * (1 + r + r^2 / 3)` with `r = supply / max_supply`, in fixed
/// point: the supply stays a whole factor, so the fixed-point loss grows with the supply.
pub open spec fn curve_integral(supply: int, base_price: int, max_supply: int) -> int {
    if supply == 0 {
        0
    } else {
        base_price * supply * integral_factor(supply_ratio(supply, max_supply)) / (3
            * PRECISION as int)
    }
}

/// `x * m / d`, split as `(x / d) * m + (x % d) * m / d`.
pub proof fn lemma_split_division(x: int, m: int, d: int)
    requires
        x >= 0,
        m >= 0,
        d > 0,
    ensures
        x * m / d == (x / d) * m + (x % d) * m / d,
        0 <= x % d < d,
{
    let q = x / d;
    let r = x % d;
    lemma_fundamental_div_mod(x, d);
    lemma_mod_pos_bound(x, d);
    let t = r * m;
    lemma_fundamental_div_mod(t, d);
    lemma_mod_pos_bound(t, d);
    assert(x * m == d * (q * m + t / d) + t % d) by (nonlinear_arith)
        requires
            x == d * q + r,
            t == r * m,
            t == d * (t / d) + t % d,
    ;
    lemma_fundamental_div_mod_converse(x * m, d, q * m + t / d, t % d);
}

/// A quotient above `bound / m` times `m` is above `bound`.
proof fn lemma_quotient_exceeds(q: int, m: int, bound: int)
    requires
        m > 0,
        bound >= 0,
        q > bound / m,
    ensures
        q * m > bound,
{
    lemma_fundamental_div_mod(bound, m);
    lemma_mod_pos_bound(bound, m);
    let b = bound / m;
    assert(q * m >= (b + 1) * m) by (nonlinear_arith)
        requires
            q >= b + 1,
            m > 0,
    ;
    assert((b + 1) * m == m * b + m) by (nonlinear_arith);
}

/// A quotient at most `bound / m` times `m` is at most `bound`.
proof fn lemma_quotient_within(q: int, m: int, bound: int)
    requires
        m > 0,
        bound >= 0,
        0 <= q <= bound / m,
    ensures
        q * m <= bound,
{
    lemma_fundamental_div_mod(bound, m);
    lemma_mod_pos_bound(bound, m);
    lemma_mul_inequality(q, bound / m, m);
    assert((bound / m) * m == m * (bound / m)) by (nonlinear_arith);
}

/// The fixed-point ratio of a supply within `[0, max_supply]` lies in `[0, PRECISION]`
/// and grows with the supply.
proof fn lemma_ratio_monotone(s1: int, s2: int, max_supply: int)
    requires
        0 <= s1 <= s2 <= max_supply,
        max_supply > 0,
    ensures
        0 <= supply_ratio(s1, max_supply) <= supply_ratio(s2, max_supply) <= PRECISION,
{
    let p = PRECISION as int;
    lemma_mul_inequality(s1, s2, p);
    lemma_mul_inequality(s2, max_supply, p);
    lemma_div_is_ordered(s1 * p, s2 * p, max_supply);
    assert(s2 * p <= max_supply * p);
    assert(max_supply * p == p * max_supply) by (nonlinear_arith);
    lemma_multiply_divide_le(s2 * p, max_supply, p);
    assert(s1 * p >= 0) by (nonlinear_arith)
        requires
            s1 >= 0,
            p > 0,
    ;
    lemma_div_is_ordered(0, s1 * p, max_supply);
}

/// For a ratio in `[0, PRECISION]` the integral factor lies in
/// `[3 * PRECISION, 7 * PRECISION]` and grows with the ratio.
proof fn lemma_factor_monotone(ra: int, rb: int)
    requires
        0 <= ra <= rb <= PRECISION,
    ensures
        3 * PRECISION <= integral_factor(ra) <= integral_factor(rb) <= 7 * PRECISION,
{
    let p = PRECISION as int;
    assert(0 <= ra * ra <= rb * rb <= p * p) by (nonlinear_arith)
        requires
            0 <= ra <= rb <= p,
    ;
    lemma_div_is_ordered(0, ra * ra, p);
    lemma_div_is_ordered(ra * ra, rb * rb, p);
    lemma_multiply_divide_le(rb * rb, p, p);
}

/// The curve's integral is non-negative and grows with the supply.
pub proof fn lemma_integral_monotone(s1: int, s2: int, base_price: int, max_supply: int)
    requires
        0 <= s1 <= s2 <= max_supply,
        base_price >= 0,
    ensures
        0 <= curve_integral(s1, base_price, max_supply) <= curve_integral(
            s2,
            base_price,
            max_supply,
        ),
{
    if s2 > 0 {
        let p = PRECISION as int;
        let f1 = integral_factor(supply_ratio(s1, max_supply));
        let f2 = integral_factor(supply_ratio(s2, max_supply));
        lemma_ratio_monotone(s1, s2, max_supply);
        lemma_factor_monotone(supply_ratio(s1, max_supply), supply_ratio(s2, max_supply));
        assert(0 <= base_price * s1 * f1 <= base_price * s2 * f2) by (nonlinear_arith)
            requires
                0 <= f1 <= f2,
                0 <= s1 <= s2,
                base_price >= 0,
        ;
        lemma_div_is_ordered(0, base_price * s1 * f1, 3 * p);
        lemma_div_is_ordered(base_price * s1 * f1, base_price * s2 * f2, 3 * p);
    }
}

/// How close the fixed-point integral is to the exact area
/// `base_price * supply * (3 * max^2 + 3 * supply * max + supply^2) / (3 * max^2)`:
/// never above it, and short of it by less than `2 * base_price * supply / PRECISION + 1`.
/// Both sides are stated multiplied out, with `exact3 = 3 * max^2` times the exact area.
pub proof fn lemma_integral_error(supply: int, base_price: int, max_supply: int)
    requires
        0 < supply <= max_supply,
        base_price >= 0,
    ensures
        ({
            let i = curve_integral(supply, base_price, max_supply);
            let m2 = max_supply * max_supply;
            let exact3 = base_price * supply * (3 * m2 + 3 * supply * max_supply + supply * supply);
            &&& 3 * m2 * i <= exact3
            &&& PRECISION * exact3 < 3 * PRECISION * m2 * (i + 1) + 6 * m2 * base_price * supply
        }),
{
    let p = PRECISION as int;
    let m = max_supply;
    let s = supply;
    let b = base_price;
    let m2 = m * m;
    let k = 3 * m2 + 3 * s * m + s * s;
    let r = supply_ratio(s, m);
    let q2 = r * r / p;
    let f = integral_factor(r);
    let i = curve_integral(s, b, m);
    lemma_ratio_monotone(s, s, m);
    lemma_factor_monotone(r, r);
    // s * p == m * r + e1 with 0 <= e1 < m
    lemma_fundamental_div_mod(s * p, m);
    lemma_mod_pos_bound(s * p, m);
    let e1 = (s * p) % m;
    // r * r == p * q2 + e2 with 0 <= e2 < p
    lemma_fundamental_div_mod(r * r, p);
    lemma_mod_pos_bound(r * r, p);
    let e2 = (r * r) % p;
    // b * s * f == 3p * i + e3 with 0 <= e3 < 3p
    assert(b * s * f >= 0) by (nonlinear_arith)
        requires
            b >= 0,
            s >= 0,
            f >= 0,
    ;
    lemma_fundamental_div_mod(b * s * f, 3 * p);
    lemma_mod_pos_bound(b * s * f, 3 * p);
    let e3 = (b * s * f) % (3 * p);
    assert(i == (b * s * f) / (3 * p));
    // Upper side: m2 * f <= p * k.
    assert(m * r <= s * p);
    assert(m2 * q2 * p <= m2 * r * r) by (nonlinear_arith)
        requires
            r * r == p * q2 + e2,
            e2 >= 0,
            m2 >= 0,
    ;
    assert(m2 * r * r <= s * p * s * p) by (nonlinear_arith)
        requires
            0 <= m * r <= s * p,
            m2 == m * m,
    ;
    assert(m2 * q2 <= s * s * p) by (nonlinear_arith)
        requires
            m2 * q2 * p <= s * p * s * p,
            p > 0,
    ;
    assert(3 * m2 * r <= 3 * s * m * p) by (nonlinear_arith)
        requires
            m * r <= s * p,
            m2 == m * m,
            m > 0,
    ;
    assert(m2 * f <= p * k) by (nonlinear_arith)
        requires
            f == 3 * p + 3 * r + q2,
            m2 * q2 <= s * s * p,
            3 * m2 * r <= 3 * s * m * p,
            k == 3 * m2 + 3 * s * m + s * s,
    ;
    assert(3 * m2 * i <= b * s * k) by (nonlinear_arith)
        requires
            b * s * f == 3 * p * i + e3,
            e3 >= 0,
            m2 * f <= p * k,
            b >= 0,
            s >= 0,
            p > 0,
            m2 >= 0,
    ;
    // Lower side: m2 * f > p * k - 6 * m2.
    assert(m2 > 0) by (nonlinear_arith)
        requires
            m > 0,
            m2 == m * m,
    ;
    assert(m * r > s * p - m);
    assert((m * r) * (m * r) >= s * p * s * p - 2 * s * p * m) by (nonlinear_arith)
        requires
            m * r >= 0,
            m * r > s * p - m,
            0 < s <= m,
            p >= 1,
    ;
    assert(p * m2 * q2 > m2 * r * r - p * m2) by (nonlinear_arith)
        requires
            r * r == p * q2 + e2,
            e2 < p,
            m2 > 0,
    ;
    assert(m2 * r * r == (m * r) * (m * r)) by (nonlinear_arith)
        requires
            m2 == m * m,
    ;
    let pmr = p * m2 * r;
    let pmq = p * m2 * q2;
    let pm = p * m2;
    let spm = s * p * m;
    let sspp = s * p * s * p;
    let sppm = s * p * p * m;
    assert(pmr > sppm - pm) by (nonlinear_arith)
        requires
            m * r > s * p - m,
            pmr == p * m2 * r,
            sppm == s * p * p * m,
            pm == p * m2,
            m2 == m * m,
            m > 0,
            p > 0,
    ;
    assert(spm <= pm) by (nonlinear_arith)
        requires
            0 < s <= m,
            spm == s * p * m,
            pm == p * m2,
            m2 == m * m,
            p > 0,
    ;
    assert(pmq > sspp - 2 * spm - pm) by (nonlinear_arith)
        requires
            pmq == p * m2 * q2,
            pm == p * m2,
            spm == s * p * m,
            sspp == s * p * s * p,
            p * m2 * q2 > m2 * r * r - p * m2,
            m2 * r * r == (m * r) * (m * r),
            (m * r) * (m * r) >= s * p * s * p - 2 * s * p * m,
    ;
    assert(p * m2 * f == 3 * p * pm + 3 * pmr + pmq) by (nonlinear_arith)
        requires
            f == 3 * p + 3 * r + q2,
            pmr == p * m2 * r,
            pmq == p * m2 * q2,
            pm == p * m2,
    ;
    assert(p * p * k == 3 * p * pm + 3 * sppm + sspp) by (nonlinear_arith)
        requires
            k == 3 * m2 + 3 * s * m + s * s,
            pm == p * m2,
            sppm == s * p * p * m,
            sspp == s * p * s * p,
    ;
    assert(p * m2 * f > p * p * k - 6 * pm);
    assert(6 * pm == 6 * p * m2) by (nonlinear_arith)
        requires
            pm == p * m2,
    ;
    assert(m2 * f > p * k - 6 * m2) by (nonlinear_arith)
        requires
            p * m2 * f > p * p * k - 6 * p * m2,
            p > 0,
    ;
    assert(p * b * s * k < 3 * p * m2 * (i + 1) + 6 * m2 * b * s) by (nonlinear_arith)
        requires
            b * s * f == 3 * p * i + e3,
            e3 < 3 * p,
            m2 * f > p * k - 6 * m2,
            b >= 0,
            s > 0,
            m2 > 0,
    ;
    let exact3 = b * s * k;
    assert(p * exact3 == p * b * s * k) by (nonlinear_arith)
        requires
            exact3 == b * s * k,
    ;
    assert(p * exact3 < 3 * p * m2 * (i + 1) + 6 * m2 * b * s);
    assert(3 * m2 * i <= exact3);
}

/// The cost of buying `amount` units at `current_supply` on the polynomial curve: the
/// integral between the two supplies. Fails on a current supply above the maximum, a
/// zero amount, a new supply above the maximum, or an integral that does not fit.
pub open spec fn buy_cost(current_supply: u64, amount: u64, base_price: u64, max_supply: u64) -> Result<
    u64,
    ErrorCode,
> {
    let new_supply = current_supply + amount;
    if current_supply > max_supply {
        Err(ErrorCode::SupplyExceeded)
    } else if amount == 0 {
        Err(ErrorCode::InvalidAmount)
    } else if new_supply > max_supply {
        Err(ErrorCode::SupplyExceeded)
    } else if curve_integral(new_supply, base_price as int, max_supply as int) > u64::MAX {
        Err(ErrorCode::Overflow)
    } else {
        Ok(
            (curve_integral(new_supply, base_price as int, max_supply as int) - curve_integral(
                current_supply as int,
                base_price as int,
                max_supply as int,
            )) as u64,
        )
    }
}

/// What selling `amount` units at `current_supply` returns: the integral between the
/// lower and the current supply. Fails on a zero amount, a current supply above the
/// maximum, an amount above the current supply, or an integral that does not fit.
pub open spec fn sell_value(current_supply: u64, amount: u64, base_price: u64, max_supply: u64) -> Result<
    u64,
    ErrorCode,
> {
    if amount == 0 {
        Err(ErrorCode::InvalidAmount)
    } else if current_supply > max_supply {
        Err(ErrorCode::SupplyExceeded)
    } else if amount > current_supply {
        Err(ErrorCode::SupplyExceeded)
    } else if curve_integral(current_supply as int, base_price as int, max_supply as int)
        > u64::MAX {
        Err(ErrorCode::Overflow)
    } else {
        Ok(
            (curve_integral(current_supply as int, base_price as int, max_supply as int)
                - curve_integral(
                current_supply - amount,
                base_price as int,
                max_supply as int,
            )) as u64,
        )
    }
}

/// `base_price * (1 + supply / max_supply)^2` in fixed point, each step truncated.
pub open spec fn spot_price(current_supply: int, base_price: int, max_supply: int) -> int {
    let p = PRECISION as int;
    let one_plus = p + supply_ratio(current_supply, max_supply);
    base_price * (one_plus * one_plus / p) / p
}

/// The gap between two prices in basis points of the expected one, truncated.
pub open spec fn slippage_of(expected_price: int, actual_price: int) -> int {
    let gap = if actual_price > expected_price {
        actual_price - expected_price
    } else {
        expected_price - actual_price
    };
    gap * BASIS_POINTS_DIVISOR as int / expected_price
}

/// Whether `amount` units can be bought at `current_supply` for at most `budget`.
pub open spec fn affordable(
    current_supply: u64,
    amount: int,
    base_price: u64,
    max_supply: u64,
    budget: u64,
) -> bool {
    &&& 0 <= amount <= u64::MAX
    &&& buy_cost(current_supply, amount as u64, base_price, max_supply) matches Ok(c)
    &&& c <= budget
}

/// Affordability is closed downwards: any positive amount below an affordable one is
/// affordable, because the integral grows with the supply.
pub proof fn lemma_affordable_downward_closed(
    current_supply: u64,
    smaller: int,
    larger: int,
    base_price: u64,
    max_supply: u64,
    budget: u64,
)
    requires
        1 <= smaller <= larger,
        affordable(current_supply, larger, base_price, max_supply, budget),
    ensures
        affordable(current_supply, smaller, base_price, max_supply, budget),
{
    let s = current_supply as int;
    lemma_integral_monotone(s, s + smaller, base_price as int, max_supply as int);
    lemma_integral_monotone(s + smaller, s + larger, base_price as int, max_supply as int);
}

/// Stateless arithmetic of the polynomial curve, fees, slippage and price bounds.
pub struct MathUtils;

impl MathUtils {
    /// Trading fee: `floor(amount * fee_basis_points / 10000)`, computed in double
    /// width; fails with `Overflow` only where the fee itself does not fit in 64 bits.
    pub fn calculate_fee(amount: u64, fee_basis_points: u64) -> (r: Result<u64, ErrorCode>)
        ensures
            fee_of(amount as int, fee_basis_points as int) <= u64::MAX ==> r == Ok::<u64, ErrorCode>(
                fee_of(amount as int, fee_basis_points as int) as u64,
            ),
            fee_of(amount as int, fee_basis_points as int) > u64::MAX ==> r == Err::<u64, ErrorCode>(
                ErrorCode::Overflow,
            ),
            fee_basis_points == 0 ==> r == Ok::<u64, ErrorCode>(0),
            fee_basis_points <= BASIS_POINTS_DIVISOR ==> (r matches Ok(f) && f <= amount),
    {
        proof {
            lemma_fee_within_amount(amount as int, fee_basis_points as int);
        }
        let fee = basis_point_fee(amount, fee_basis_points);
        if fee > u64::MAX as u128 {
            return Err(ErrorCode::Overflow);
        }
        Ok(fee as u64)
    }

    /// Cost of buying `amount` units at `current_supply` on the polynomial curve
    /// `base_price * (1 + supply / max_supply)^2`.
    pub fn calculate_buy_price(current_supply: u64, amount: u64, base_price: u64, max_supply: u64) -> (r:
        Result<u64, ErrorCode>)
        ensures
            r == buy_cost(current_supply, amount, base_price, max_supply),
    {
        if current_supply > max_supply {
            return Err(ErrorCode::SupplyExceeded);
        }
        if amount == 0 {
            return Err(ErrorCode::InvalidAmount);
        }
        if amount > max_supply - current_supply {
            return Err(ErrorCode::SupplyExceeded);
        }
        let new_supply = current_supply + amount;
        proof {
            lemma_integral_monotone(
                current_supply as int,
                new_supply as int,
                base_price as int,
                max_supply as int,
            );
        }
        let end_integral = Self::calculate_integral(new_supply, base_price, max_supply)?;
        let start_integral = Self::calculate_integral(current_supply, base_price, max_supply)?;
        Ok(end_integral - start_integral)
    }

    /// What selling `amount` units at `current_supply` returns on the polynomial curve.
    pub fn calculate_sell_price(current_supply: u64, amount: u64, base_price: u64, max_supply: u64) -> (r:
        Result<u64, ErrorCode>)
        ensures
            r == sell_value(current_supply, amount, base_price, max_supply),
    {
        if amount == 0 {
            return Err(ErrorCode::InvalidAmount);
        }
        if current_supply > max_supply {
            return Err(ErrorCode::SupplyExceeded);
        }
        if amount > current_supply {
            return Err(ErrorCode::SupplyExceeded);
        }
        let new_supply = current_supply - amount;
        proof {
            lemma_integral_monotone(
                new_supply as int,
                current_supply as int,
                base_price as int,
                max_supply as int,
            );
        }
        let end_integral = Self::calculate_integral(current_supply, base_price, max_supply)?;
        let start_integral = Self::calculate_integral(new_supply, base_price, max_supply)?;
        Ok(end_integral - start_integral)
    }

    /// Price of one unit at `current_supply`: `base_price * (1 + supply / max_supply)^2`.
    pub fn calculate_current_price(current_supply: u64, base_price: u64, max_supply: u64) -> (r:
        Result<u64, ErrorCode>)
        ensures
            current_supply > max_supply ==> r == Err::<u64, ErrorCode>(ErrorCode::SupplyExceeded),
            current_supply <= max_supply && max_supply == 0 ==> r == Err::<u64, ErrorCode>(
                ErrorCode::DivisionByZero,
            ),
            current_supply <= max_supply && max_supply > 0 ==> {
                let v = spot_price(current_supply as int, base_price as int, max_supply as int);
                &&& v <= u64::MAX ==> r == Ok::<u64, ErrorCode>(v as u64)
                &&& v > u64::MAX ==> r == Err::<u64, ErrorCode>(ErrorCode::Overflow)
            },
    {
        if current_supply > max_supply {
            return Err(ErrorCode::SupplyExceeded);
        }
        if max_supply == 0 {
            return Err(ErrorCode::DivisionByZero);
        }
        let p: u128 = PRECISION as u128;
        proof {
            lemma_ratio_monotone(current_supply as int, current_supply as int, max_supply as int);
        }
        let ratio: u128 = current_supply as u128 * p / max_supply as u128;
        let one_plus: u128 = p + ratio;
        proof {
            let pi = p as int;
            let sq = one_plus as int * one_plus as int;
            assert(sq <= 4 * pi * pi) by (nonlinear_arith)
                requires
                    sq == one_plus as int * one_plus as int,
                    0 <= one_plus <= 2 * pi,
            ;
            assert(4 * pi * pi == pi * (4 * pi)) by (nonlinear_arith);
            lemma_multiply_divide_le(sq, pi, 4 * pi);
            lemma_mul_upper_bound(base_price as int, u64::MAX as int, sq / pi, 4 * pi);
        }
        let squared: u128 = one_plus * one_plus / p;
        let price: u128 = base_price as u128 * squared / p;
        if price > u64::MAX as u128 {
            return Err(ErrorCode::Overflow);
        }
        Ok(price as u64)
    }

    /// Slippage of `actual_price` against `expected_price`, in basis points of the
    /// expected price, truncated.
    pub fn calculate_slippage(expected_price: u64, actual_price: u64) -> (r: Result<u64, ErrorCode>)
        ensures
            expected_price == 0 ==> r == Err::<u64, ErrorCode>(ErrorCode::DivisionByZero),
            expected_price > 0 ==> {
                let v = slippage_of(expected_price as int, actual_price as int);
                &&& v <= u64::MAX ==> r == Ok::<u64, ErrorCode>(v as u64)
                &&& v > u64::MAX ==> r == Err::<u64, ErrorCode>(ErrorCode::Overflow)
            },
    {
        if expected_price == 0 {
            return Err(ErrorCode::DivisionByZero);
        }
        let gap: u64 = if actual_price > expected_price {
            actual_price - expected_price
        } else {
            expected_price - actual_price
        };
        proof {
            lemma_mul_upper_bound(
                gap as int,
                u64::MAX as int,
                BASIS_POINTS_DIVISOR as int,
                BASIS_POINTS_DIVISOR as int,
            );
        }
        let scaled: u128 = gap as u128 * BASIS_POINTS_DIVISOR as u128;
        let slippage: u128 = scaled / expected_price as u128;
        if slippage > u64::MAX as u128 {
            return Err(ErrorCode::Overflow);
        }
        Ok(slippage as u64)
    }

    /// Largest amount that `sol_amount` buys at `current_supply`, by binary search over
    /// `[0, max_supply - current_supply]`; 0 when not even one unit is affordable.
    pub fn calculate_max_tokens_for_sol(
        sol_amount: u64,
        current_supply: u64,
        base_price: u64,
        max_supply: u64,
    ) -> (r: Result<u64, ErrorCode>)
        ensures
            sol_amount == 0 ==> r == Err::<u64, ErrorCode>(ErrorCode::InvalidAmount),
            sol_amount > 0 && current_supply > max_supply ==> r == Err::<u64, ErrorCode>(
                ErrorCode::SupplyExceeded,
            ),
            sol_amount > 0 && current_supply <= max_supply ==> (r matches Ok(n) && {
                &&& n <= max_supply - current_supply
                &&& (n == 0 || affordable(current_supply, n as int, base_price, max_supply, sol_amount))
                &&& !affordable(current_supply, n + 1, base_price, max_supply, sol_amount)
                &&& forall|a: int|
                    #![trigger affordable(current_supply, a, base_price, max_supply, sol_amount)]
                    affordable(current_supply, a, base_price, max_supply, sol_amount) <==> 1 <= a
                        <= n
            }),
    {
        if sol_amount == 0 {
            return Err(ErrorCode::InvalidAmount);
        }
        if current_supply > max_supply {
            return Err(ErrorCode::SupplyExceeded);
        }
        let mut low: u64 = 0;
        let mut high: u64 = max_supply - current_supply;
        while low < high
            invariant
                current_supply <= max_supply,
                low <= high <= max_supply - current_supply,
                low == 0 || affordable(current_supply, low as int, base_price, max_supply, sol_amount),
                !affordable(current_supply, high + 1, base_price, max_supply, sol_amount),
            decreases high - low,
        {
            let span = high - low;
            let mid = low + span / 2 + span % 2;
            let fits = match Self::calculate_buy_price(current_supply, mid, base_price, max_supply) {
                Ok(price) => price <= sol_amount,
                Err(_) => false,
            };
            if fits {
                low = mid;
            } else {
                high = mid - 1;
            }
        }
        proof {
            assert forall|a: int|
                #![trigger affordable(current_supply, a, base_price, max_supply, sol_amount)]
                affordable(current_supply, a, base_price, max_supply, sol_amount) <==> 1 <= a
                    <= low by {
                if affordable(current_supply, a, base_price, max_supply, sol_amount) && a > low {
                    lemma_affordable_downward_closed(
                        current_supply,
                        low + 1,
                        a,
                        base_price,
                        max_supply,
                        sol_amount,
                    );
                }
                if 1 <= a <= low {
                    lemma_affordable_downward_closed(
                        current_supply,
                        a,
                        low as int,
                        base_price,
                        max_supply,
                        sol_amount,
                    );
                }
            }
        }
        Ok(low)
    }

    /// Accepts `price` within `[min_price, max_price]`; below is `PriceTooLow`, above is
    /// `PriceTooHigh`.
    pub fn validate_price_bounds(price: u64, min_price: u64, max_price: u64) -> (r: Result<(), ErrorCode>)
        ensures
            price < min_price ==> r == Err::<(), ErrorCode>(ErrorCode::PriceTooLow),
            min_price <= price && price > max_price ==> r == Err::<(), ErrorCode>(
                ErrorCode::PriceTooHigh,
            ),
            min_price <= price <= max_price ==> r == Ok::<(), ErrorCode>(()),
    {
        if price < min_price {
            return Err(ErrorCode::PriceTooLow);
        }
        if price > max_price {
            return Err(ErrorCode::PriceTooHigh);
        }
        Ok(())
    }

    /// The curve's integral from 0 to `supply`: `DivisionByZero` for a positive supply
    /// with no maximum, `SupplyExceeded` above the maximum, `Overflow` where it does not
    /// fit in 64 bits. No intermediate value can wrap: the final division is split so that
    /// only the result itself is ever formed at full size.
    fn calculate_integral(supply: u64, base_price: u64, max_supply: u64) -> (r: Result<u64, ErrorCode>)
        ensures
            supply == 0 ==> r == Ok::<u64, ErrorCode>(0),
            supply > 0 && max_supply == 0 ==> r == Err::<u64, ErrorCode>(ErrorCode::DivisionByZero),
            0 < max_supply && max_supply < supply ==> r == Err::<u64, ErrorCode>(
                ErrorCode::SupplyExceeded,
            ),
            supply <= max_supply && curve_integral(supply as int, base_price as int, max_supply as int)
                <= u64::MAX ==> r == Ok::<u64, ErrorCode>(
                curve_integral(supply as int, base_price as int, max_supply as int) as u64,
            ),
            0 < supply <= max_supply && curve_integral(
                supply as int,
                base_price as int,
                max_supply as int,
            ) > u64::MAX ==> r == Err::<u64, ErrorCode>(ErrorCode::Overflow),
    {
        if supply == 0 {
            return Ok(0);
        }
        if max_supply == 0 {
            return Err(ErrorCode::DivisionByZero);
        }
        if supply > max_supply {
            return Err(ErrorCode::SupplyExceeded);
        }
        let p: u128 = PRECISION as u128;
        proof {
            lemma_ratio_monotone(supply as int, supply as int, max_supply as int);
            lemma_factor_monotone(
                supply_ratio(supply as int, max_supply as int),
                supply_ratio(supply as int, max_supply as int),
            );
        }
        let ratio: u128 = supply as u128 * p / max_supply as u128;
        proof {
            assert(ratio * ratio <= p * p) by (nonlinear_arith)
                requires
                    ratio <= p,
            ;
        }
        let growth: u128 = 3 * p + 3 * ratio + ratio * ratio / p;
        assert(growth == integral_factor(supply_ratio(supply as int, max_supply as int)));
        proof {
            lemma_mul_upper_bound(
                base_price as int,
                u64::MAX as int,
                growth as int,
                7 * PRECISION as int,
            );
        }
        let weighted: u128 = base_price as u128 * growth;
        let divisor: u128 = 3 * p;
        let whole: u128 = weighted / divisor;
        let rest: u128 = weighted % divisor;
        let m = supply as u128;
        let ghost value = curve_integral(supply as int, base_price as int, max_supply as int);
        proof {
            lemma_split_division(weighted as int, m as int, divisor as int);
            assert(base_price * supply * growth == weighted * m) by (nonlinear_arith)
                requires
                    weighted == base_price * growth,
                    m == supply,
            ;
            assert(value == whole * m + rest * m / (divisor as int));
            assert(rest * m <= divisor * u64::MAX) by (nonlinear_arith)
                requires
                    rest < divisor,
                    m <= u64::MAX,
            ;
            lemma_div_is_ordered(0, rest * m, divisor as int);
            lemma_multiply_divide_le(rest * m, divisor as int, u64::MAX as int);
        }
        if whole > (u64::MAX as u128) / m {
            proof {
                lemma_quotient_exceeds(whole as int, m as int, u64::MAX as int);
            }
            return Err(ErrorCode::Overflow);
        }
        proof {
            lemma_quotient_within(whole as int, m as int, u64::MAX as int);
        }
        let total: u128 = whole * m + rest * m / divisor;
        if total > u64::MAX as u128 {
            return Err(ErrorCode::Overflow);
        }
        Ok(total as u64)
    }
}

} // verus!
