use vstd::prelude::*;
use crate::error::ErrorCode;
use crate::ledger::{apply_trade, ledger_outcome, lemma_ledger_keeps_wf};
use crate::snapshot::{Direction, ReserveSnapshot, Strategy, TradeQuote, TradeRequest, TradeResult};

verus! {

/// The snapshot after the completion gate: complete once the custodied quote
/// reserve has reached the graduation threshold, and complete for good.
pub open spec fn gate(s: ReserveSnapshot) -> ReserveSnapshot {
    ReserveSnapshot {
        is_complete: s.is_complete || s.real_quote_reserves >= s.graduation_threshold,
        ..s
    }
}

/// Whether the quote breaks one of the request's slippage bounds.
pub open spec fn breaks_bounds(req: TradeRequest, q: TradeQuote) -> bool {
    ||| (req.min_amount_out matches Some(m) && q.net_amount_out < m)
    ||| (req.max_amount_in matches Some(m) && q.amount_in > m)
}

/// The result of one trade against `s`: quote, apply, check the bounds, then pass
/// the new snapshot through the completion gate.
pub open spec fn trade_outcome(s: ReserveSnapshot, req: TradeRequest) -> Result<TradeResult, ErrorCode> {
    match ledger_outcome(s, req.strategy, req.direction, req.amount) {
        Err(e) => Err(e),
        Ok(p) => {
            let q = p.0;
            let next = p.1;
            if breaks_bounds(req, q) {
                Err(ErrorCode::SlippageExceeded)
            } else {
                Ok(
                    TradeResult {
                        amount_in: q.amount_in,
                        amount_out: q.net_amount_out,
                        fee_amount: q.fee_amount,
                        new_snapshot: gate(next),
                        completed_this_trade: !next.is_complete && gate(next).is_complete,
                    },
                )
            }
        },
    }
}

/// A constant-product request for `amount` in `direction` with no slippage bound.
pub open spec fn plain_request(direction: Direction, amount: u64) -> TradeRequest {
    TradeRequest {
        direction,
        amount,
        strategy: Strategy::ConstantProduct,
        min_amount_out: None,
        max_amount_in: None,
    }
}

/// The completion gate: marks the curve complete when its custodied quote reserve has
/// reached the graduation threshold, and says whether it did so now.
pub fn check_completion(snapshot: &mut ReserveSnapshot) -> (completed: bool)
    ensures
        *final(snapshot) == gate(*old(snapshot)),
        completed == (!old(snapshot).is_complete && final(snapshot).is_complete),
{
    if !snapshot.is_complete && snapshot.real_quote_reserves >= snapshot.graduation_threshold {
        snapshot.is_complete = true;
        true
    } else {
        false
    }
}

/// Executes one trade against `snapshot` and returns the net output, the fee, the
/// snapshot to commit and whether the curve completed with this trade. The caller's
/// snapshot is only read, so a failure leaves it as it was.
pub fn execute_trade(snapshot: &ReserveSnapshot, request: &TradeRequest) -> (r: Result<
    TradeResult,
    ErrorCode,
>)
    ensures
        r == trade_outcome(*snapshot, *request),
        r is Ok && snapshot.wf() ==> r->Ok_0.new_snapshot.wf(),
{
    proof {
        if snapshot.wf() && ledger_outcome(
            *snapshot,
            request.strategy,
            request.direction,
            request.amount,
        ) is Ok {
            lemma_ledger_keeps_wf(*snapshot, request.strategy, request.direction, request.amount);
        }
    }
    let (q, mut next) = apply_trade(snapshot, request.strategy, request.direction, request.amount)?;
    let too_little = match request.min_amount_out {
        Some(m) => q.net_amount_out < m,
        None => false,
    };
    let too_much = match request.max_amount_in {
        Some(m) => q.amount_in > m,
        None => false,
    };
    if too_little || too_much {
        return Err(ErrorCode::SlippageExceeded);
    }
    let completed = check_completion(&mut next);
    Ok(
        TradeResult {
            amount_in: q.amount_in,
            amount_out: q.net_amount_out,
            fee_amount: q.fee_amount,
            new_snapshot: next,
            completed_this_trade: completed,
        },
    )
}

/// Spends `quote_amount` of the quote asset on the constant-product curve and commits the new snapshot
/// in place; on any failure the curve is left exactly as it was.
pub fn buy_tokens(curve: &mut ReserveSnapshot, quote_amount: u64) -> (r: Result<TradeResult, ErrorCode>)
    ensures
        r == trade_outcome(*old(curve), plain_request(Direction::Buy, quote_amount)),
        r matches Ok(t) ==> *final(curve) == t.new_snapshot,
        r is Err ==> *final(curve) == *old(curve),
        old(curve).wf() ==> final(curve).wf(),
{
    let request = TradeRequest {
        direction: Direction::Buy,
        amount: quote_amount,
        strategy: Strategy::ConstantProduct,
        min_amount_out: None,
        max_amount_in: None,
    };
    let result = execute_trade(curve, &request)?;
    *curve = result.new_snapshot;
    Ok(result)
}

/// Returns `base_amount` of the base asset to the constant-product curve and commits the new snapshot
/// in place; on any failure the curve is left exactly as it was.
pub fn sell_tokens(curve: &mut ReserveSnapshot, base_amount: u64) -> (r: Result<TradeResult, ErrorCode>)
    ensures
        r == trade_outcome(*old(curve), plain_request(Direction::Sell, base_amount)),
        r matches Ok(t) ==> *final(curve) == t.new_snapshot,
        r is Err ==> *final(curve) == *old(curve),
        old(curve).wf() ==> final(curve).wf(),
{
    let request = TradeRequest {
        direction: Direction::Sell,
        amount: base_amount,
        strategy: Strategy::ConstantProduct,
        min_amount_out: None,
        max_amount_in: None,
    };
    let result = execute_trade(curve, &request)?;
    *curve = result.new_snapshot;
    Ok(result)
}

/// Completion is one-way: a completed curve refuses every trade with `CurveComplete`;
/// a trade that succeeds leaves the curve complete exactly when its custodied quote
/// reserve has reached the threshold, says so in `completed_this_trade`, and from then
/// on every further trade is refused with `CurveComplete`.
pub proof fn lemma_completion_is_final(s: ReserveSnapshot, req: TradeRequest, later: TradeRequest)
    ensures
        s.is_complete ==> trade_outcome(s, req) == Err::<TradeResult, ErrorCode>(
            ErrorCode::CurveComplete,
        ),
        trade_outcome(s, req) matches Ok(t) ==> {
            &&& t.new_snapshot.is_complete == (t.new_snapshot.real_quote_reserves
                >= t.new_snapshot.graduation_threshold)
            &&& t.completed_this_trade == t.new_snapshot.is_complete
            &&& (t.new_snapshot.is_complete ==> trade_outcome(t.new_snapshot, later) == Err::<
                TradeResult,
                ErrorCode,
            >(ErrorCode::CurveComplete))
        },
{
}

} // verus!
