use vstd::prelude::*;
use crate::error::ErrorCode;

verus! {

/// Largest fee rate, in basis points: the whole amount.
pub const MAX_FEE_BASIS_POINTS: u16 = 10_000;

/// Which side of the curve a trade takes.
#[derive(Debug, Clone, Copy, PartialEq, Eq, Structural)]
pub enum Direction {
    /// Spend quote asset, receive base asset.
    Buy,
    /// Return base asset, receive quote asset.
    Sell,
}

/// How a trade is priced. A curve keeps one strategy for its whole life.
#[derive(Debug, Clone, Copy, PartialEq, Eq, Structural)]
pub enum Strategy {
    /// `amount` is the input; the virtual reserves keep their product.
    ConstantProduct,
    /// `amount` is base units; they cost, or return, the area under
    /// `base_price * (1 + supply / total_supply)^2` between the supplies before and after,
    /// where the supply is the base asset outside the curve's custody.
    Polynomial { base_price: u64 },
}

/// The state of one curve at a point in time.
#[derive(Debug, Clone, Copy, PartialEq, Eq, Structural)]
pub struct ReserveSnapshot {
    pub virtual_base_reserves: u64,
    pub virtual_quote_reserves: u64,
    pub real_base_reserves: u64,
    pub real_quote_reserves: u64,
    pub total_supply: u64,
    pub is_complete: bool,
    pub graduation_threshold: u64,
    pub fee_basis_points: u16,
}

/// A request to trade `amount` against a curve priced by `strategy`, with optional bounds.
#[derive(Debug, Clone, Copy)]
pub struct TradeRequest {
    pub direction: Direction,
    pub amount: u64,
    pub strategy: Strategy,
    /// Fail when the net output would be below this.
    pub min_amount_out: Option<u64>,
    /// Fail when the input paid would be above this.
    pub max_amount_in: Option<u64>,
}

/// A priced trade, before it is applied to the reserves.
#[derive(Debug, Clone, Copy, PartialEq, Eq, Structural)]
pub struct TradeQuote {
    pub amount_in: u64,
    pub gross_amount_out: u64,
    pub fee_amount: u64,
    pub net_amount_out: u64,
    pub direction: Direction,
}

/// What a successful trade hands back: the input to collect, the net output, the fee
/// kept by the curve, the snapshot to commit, and whether this trade completed the curve.
#[derive(Debug, Clone, Copy, PartialEq, Eq, Structural)]
pub struct TradeResult {
    pub amount_in: u64,
    pub amount_out: u64,
    pub fee_amount: u64,
    pub new_snapshot: ReserveSnapshot,
    pub completed_this_trade: bool,
}

impl ReserveSnapshot {
    /// The invariant of a curve that the engine keeps: a valid fee rate, and
    /// positive virtual reserves while trading is open.
    pub open spec fn wf(&self) -> bool {
        &&& self.fee_basis_points <= MAX_FEE_BASIS_POINTS
        &&& (!self.is_complete ==> self.virtual_base_reserves > 0 && self.virtual_quote_reserves > 0)
    }

    /// The constant-product invariant `k` of the virtual reserves.
    pub open spec fn product(&self) -> int {
        self.virtual_base_reserves as int * self.virtual_quote_reserves as int
    }

    /// Opens a curve with the given virtual reserves, custodied base reserve and
    /// configuration; no quote asset is custodied yet and the curve is active.
    pub fn new(
        virtual_base_reserves: u64,
        virtual_quote_reserves: u64,
        real_base_reserves: u64,
        total_supply: u64,
        graduation_threshold: u64,
        fee_basis_points: u16,
    ) -> (r: Result<ReserveSnapshot, ErrorCode>)
        ensures
            fee_basis_points > MAX_FEE_BASIS_POINTS ==> r == Err::<ReserveSnapshot, _>(
                ErrorCode::InvalidFee,
            ),
            fee_basis_points <= MAX_FEE_BASIS_POINTS && (virtual_base_reserves == 0
                || virtual_quote_reserves == 0) ==> r == Err::<ReserveSnapshot, _>(
                ErrorCode::DegenerateCurve,
            ),
            fee_basis_points <= MAX_FEE_BASIS_POINTS && virtual_base_reserves > 0
                && virtual_quote_reserves > 0 ==> r == Ok::<_, ErrorCode>(
                (ReserveSnapshot {
                    virtual_base_reserves,
                    virtual_quote_reserves,
                    real_base_reserves,
                    real_quote_reserves: 0,
                    total_supply,
                    is_complete: false,
                    graduation_threshold,
                    fee_basis_points,
                }),
            ),
            r matches Ok(s) ==> s.wf(),
    {
        if fee_basis_points > MAX_FEE_BASIS_POINTS {
            return Err(ErrorCode::InvalidFee);
        }
        if virtual_base_reserves == 0 || virtual_quote_reserves == 0 {
            return Err(ErrorCode::DegenerateCurve);
        }
        Ok(ReserveSnapshot {
            virtual_base_reserves,
            virtual_quote_reserves,
            real_base_reserves,
            real_quote_reserves: 0,
            total_supply,
            is_complete: false,
            graduation_threshold,
            fee_basis_points,
        })
    }
}

} // verus!
