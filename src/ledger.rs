use vstd::prelude::*;
use crate::error::ErrorCode;
use crate::math::fee_of;
use crate::pricing::{
    curve_output, input_reserve, lemma_curve_output_bounds, output_reserve, quote_with,
    strategy_quote_outcome,
};
use crate::snapshot::{Direction, ReserveSnapshot, Strategy, TradeQuote};

verus! {

/// The snapshot after moving the quote's amounts through all four reserves, or the
/// first checked step that fails. A buy adds the input to both quote reserves and
/// takes the net output from both base reserves; a sell does the converse. The fee
/// stays in the reserves.
pub open spec fn apply_outcome(s: ReserveSnapshot, q: TradeQuote) -> Result<ReserveSnapshot, ErrorCode> {
    let a = q.amount_in as int;
    let n = q.net_amount_out as int;
    match q.direction {
        Direction::Buy => {
            if s.virtual_quote_reserves + a > u64::MAX || s.real_quote_reserves + a > u64::MAX {
                Err(ErrorCode::Overflow)
            } else if n > s.virtual_base_reserves || n > s.real_base_reserves {
                Err(ErrorCode::Underflow)
            } else {
                Ok(
                    ReserveSnapshot {
                        virtual_base_reserves: (s.virtual_base_reserves - n) as u64,
                        virtual_quote_reserves: (s.virtual_quote_reserves + a) as u64,
                        real_base_reserves: (s.real_base_reserves - n) as u64,
                        real_quote_reserves: (s.real_quote_reserves + a) as u64,
                        ..s
                    },
                )
            }
        },
        Direction::Sell => {
            if s.virtual_base_reserves + a > u64::MAX || s.real_base_reserves + a > u64::MAX {
                Err(ErrorCode::Overflow)
            } else if n > s.virtual_quote_reserves || n > s.real_quote_reserves {
                Err(ErrorCode::Underflow)
            } else {
                Ok(
                    ReserveSnapshot {
                        virtual_base_reserves: (s.virtual_base_reserves + a) as u64,
                        virtual_quote_reserves: (s.virtual_quote_reserves - n) as u64,
                        real_base_reserves: (s.real_base_reserves + a) as u64,
                        real_quote_reserves: (s.real_quote_reserves - n) as u64,
                        ..s
                    },
                )
            }
        },
    }
}

/// Quote, then apply: the quote for the trade and the snapshot it leads to.
pub open spec fn ledger_outcome(
    s: ReserveSnapshot,
    strategy: Strategy,
    direction: Direction,
    amount: u64,
) -> Result<(TradeQuote, ReserveSnapshot), ErrorCode> {
    match strategy_quote_outcome(s, strategy, direction, amount) {
        Err(e) => Err(e),
        Ok(q) => match apply_outcome(s, q) {
            Err(e) => Err(e),
            Ok(n) => Ok((q, n)),
        },
    }
}

fn apply_quote(snapshot: &ReserveSnapshot, q: &TradeQuote) -> (r: Result<ReserveSnapshot, ErrorCode>)
    ensures
        r == apply_outcome(*snapshot, *q),
{
    let a = q.amount_in;
    let n = q.net_amount_out;
    match q.direction {
        Direction::Buy => {
            if snapshot.virtual_quote_reserves > u64::MAX - a || snapshot.real_quote_reserves
                > u64::MAX - a {
                return Err(ErrorCode::Overflow);
            }
            if n > snapshot.virtual_base_reserves || n > snapshot.real_base_reserves {
                return Err(ErrorCode::Underflow);
            }
            Ok(
                ReserveSnapshot {
                    virtual_base_reserves: snapshot.virtual_base_reserves - n,
                    virtual_quote_reserves: snapshot.virtual_quote_reserves + a,
                    real_base_reserves: snapshot.real_base_reserves - n,
                    real_quote_reserves: snapshot.real_quote_reserves + a,
                    ..*snapshot
                },
            )
        },
        Direction::Sell => {
            if snapshot.virtual_base_reserves > u64::MAX - a || snapshot.real_base_reserves
                > u64::MAX - a {
                return Err(ErrorCode::Overflow);
            }
            if n > snapshot.virtual_quote_reserves || n > snapshot.real_quote_reserves {
                return Err(ErrorCode::Underflow);
            }
            Ok(
                ReserveSnapshot {
                    virtual_base_reserves: snapshot.virtual_base_reserves + a,
                    virtual_quote_reserves: snapshot.virtual_quote_reserves - n,
                    real_base_reserves: snapshot.real_base_reserves + a,
                    real_quote_reserves: snapshot.real_quote_reserves - n,
                    ..*snapshot
                },
            )
        },
    }
}

/// A successful quote-and-apply keeps the curve's invariant: the output reserve keeps
/// more than the net output, and the input reserve only grows.
pub proof fn lemma_ledger_keeps_wf(
    s: ReserveSnapshot,
    strategy: Strategy,
    direction: Direction,
    amount: u64,
)
    requires
        s.wf(),
        ledger_outcome(s, strategy, direction, amount) is Ok,
    ensures
        ledger_outcome(s, strategy, direction, amount)->Ok_0.1.wf(),
        !ledger_outcome(s, strategy, direction, amount)->Ok_0.1.is_complete,
{
    let rin = input_reserve(s, direction) as int;
    let rout = output_reserve(s, direction) as int;
    match strategy {
        Strategy::ConstantProduct => {
            lemma_curve_output_bounds(rin, rout, amount as int);
            let gross = curve_output(rin, rout, amount as int);
            assert(fee_of(gross, s.fee_basis_points as int) >= 0) by (nonlinear_arith)
                requires
                    gross >= 0,
                    s.fee_basis_points >= 0,
            ;
        },
        Strategy::Polynomial { .. } => {
            let q = strategy_quote_outcome(s, strategy, direction, amount)->Ok_0;
            let gross = q.gross_amount_out as int;
            assert(fee_of(gross, s.fee_basis_points as int) >= 0) by (nonlinear_arith)
                requires
                    gross >= 0,
                    s.fee_basis_points >= 0,
            ;
        },
    }
}

/// Re-derives the quote for `amount` from `snapshot` and applies it, all or nothing:
/// the caller's snapshot is only read.
pub fn apply_trade(
    snapshot: &ReserveSnapshot,
    strategy: Strategy,
    direction: Direction,
    amount: u64,
) -> (r: Result<(TradeQuote, ReserveSnapshot), ErrorCode>)
    ensures
        r == ledger_outcome(*snapshot, strategy, direction, amount),
        r is Ok && snapshot.wf() ==> r->Ok_0.1.wf(),
{
    proof {
        if snapshot.wf() && ledger_outcome(*snapshot, strategy, direction, amount) is Ok {
            lemma_ledger_keeps_wf(*snapshot, strategy, direction, amount);
        }
    }
    let q = quote_with(snapshot, strategy, direction, amount)?;
    let next = apply_quote(snapshot, &q)?;
    Ok((q, next))
}

} // verus!
