use vstd::prelude::*;

verus! {

/// Why a pricing, ledger or completion step refused to go on.
/// No step changes any reserve before it returns one of these.
#[derive(Debug, Clone, Copy, PartialEq, Eq, Structural)]
pub enum ErrorCode {
    /// The input amount is zero or otherwise meaningless.
    InvalidAmount,
    /// A checked addition or multiplication left its range.
    Overflow,
    /// A checked subtraction went below zero.
    Underflow,
    /// A divisor was zero.
    DivisionByZero,
    /// A virtual reserve that pricing divides by is zero.
    DegenerateCurve,
    /// The computed output is zero or would drain the reserve.
    InsufficientReserves,
    /// The polynomial curve's supply would leave `[0, max_supply]`.
    SupplyExceeded,
    /// The curve has completed; no further trade is priced.
    CurveComplete,
    /// The result breaks the caller's slippage bound.
    SlippageExceeded,
    /// A fee rate above 10000 basis points.
    InvalidFee,
    /// A price below the caller's lower bound.
    PriceTooLow,
    /// A price above the caller's upper bound.
    PriceTooHigh,
}

/// Why a launch or a graduation was refused.
#[derive(Debug, Clone, Copy, PartialEq, Eq, Structural)]
pub enum PumpError {
    /// The token name is longer than 32 bytes.
    NameTooLong,
    /// The token symbol is longer than 10 bytes.
    SymbolTooLong,
    /// The metadata URI is longer than 200 bytes.
    UriTooLong,
    /// The curve has not reached its graduation threshold.
    GraduationThresholdNotMet,
    /// The curve's liquidity was already handed over.
    TokenAlreadyGraduated,
}

} // verus!
