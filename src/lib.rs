//! Pricing and reserve ledger of a bonding-curve market: quotes against a
//! constant-product or a polynomial curve, fees in basis points, checked
//! reserve updates, and the one-way completion of a curve.
//!
//! - `snapshot`: a curve's state, trade requests, quotes and results.
//! - `math`: fixed-point arithmetic of the polynomial curve, fees, slippage.
//! - `pricing`: quotes under either strategy.
//! - `ledger`: applying a quote to all four reserves, all or nothing.
//! - `engine`: the completion gate and whole trades, by value or in place.
//! - `conservation`: what trades do to the reserve product, and round trips.
//! - `bonding_curve`, `token_launch`: account records priced on their reserves.
//! - `launch`: the metadata checks and initial curve of a new token, and the
//!   hand-over of a completed curve.
//!
//! Every operation is a pure computation over values the caller owns: it never
//! moves assets, and on failure it leaves the caller's state as it was.
pub mod bonding_curve;
pub mod conservation;
pub mod engine;
pub mod error;
pub mod launch;
pub mod ledger;
pub mod math;
pub mod pricing;
pub mod snapshot;
pub mod token_launch;

pub use bonding_curve::{BondingCurve, GRADUATION_THRESHOLD, PRICE_SCALE};
pub use engine::{buy_tokens, check_completion, execute_trade, sell_tokens};
pub use error::{ErrorCode, PumpError};
pub use launch::{
    create_token, graduate_token, GraduationPlan, TokenCreation, INITIAL_VIRTUAL_SOL_RESERVES,
    INITIAL_VIRTUAL_TOKEN_RESERVES, LAUNCH_FEE_BASIS_POINTS, MAX_NAME_LEN, MAX_SYMBOL_LEN, MAX_URI_LEN, POOL_QUOTE_PERCENT,
    POOL_TOKEN_PERCENT, TOKEN_TOTAL_SUPPLY,
};
pub use ledger::apply_trade;
pub use math::{MathUtils, BASIS_POINTS_DIVISOR};
pub use pricing::{constant_product_output, polynomial_quote, quote, quote_with};
pub use snapshot::{
    Direction, ReserveSnapshot, Strategy, TradeQuote, TradeRequest, TradeResult, MAX_FEE_BASIS_POINTS,
};
pub use token_launch::TokenLaunch;
