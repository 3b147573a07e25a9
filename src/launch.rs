use vstd::prelude::*;
use crate::bonding_curve::GRADUATION_THRESHOLD;
use crate::error::PumpError;
use crate::snapshot::ReserveSnapshot;

verus! {

/// Longest token name, in bytes.
pub const MAX_NAME_LEN: usize = 32;

/// Longest token symbol, in bytes.
pub const MAX_SYMBOL_LEN: usize = 10;

/// Longest metadata URI, in bytes.
pub const MAX_URI_LEN: usize = 200;

/// Virtual token reserve of a new curve.
pub const INITIAL_VIRTUAL_TOKEN_RESERVES: u64 = 1_073_000_000_000_000;

/// Virtual sol reserve of a new curve.
pub const INITIAL_VIRTUAL_SOL_RESERVES: u64 = 30_000_000_000;

/// Fixed supply of every launched token.
pub const TOKEN_TOTAL_SUPPLY: u64 = 1_000_000_000_000_000;

/// Fee rate of a launched curve, in basis points, charged on the output of either side.
pub const LAUNCH_FEE_BASIS_POINTS: u16 = 100;

/// Percent of the supply that graduation hands to the external pool.
pub const POOL_TOKEN_PERCENT: u64 = 80;

/// Percent of the custodied quote reserve that graduation hands to the external pool.
pub const POOL_QUOTE_PERCENT: u64 = 90;

/// A new token's curve, and the share of the supply minted to its creator (a fifth),
/// which the curve does not hold.
#[derive(Debug, Clone, Copy, PartialEq, Eq, Structural)]
pub struct TokenCreation {
    pub curve: ReserveSnapshot,
    pub creator_allotment: u64,
}

/// What graduation hands over: tokens and quote asset for the external pool, and the
/// rest of the supply for the creator.
#[derive(Debug, Clone, Copy, PartialEq, Eq, Structural)]
pub struct GraduationPlan {
    pub token_liquidity: u64,
    pub sol_liquidity: u64,
    pub creator_tokens: u64,
}

/// Validates a new token's metadata and sets up its curve: the fixed virtual reserves,
/// the whole supply less the creator's fifth in custody, nothing in sol, trading open,
/// completing at `GRADUATION_THRESHOLD` with a fee of `LAUNCH_FEE_BASIS_POINTS`.
pub fn create_token(name: &str, symbol: &str, uri: &str) -> (r: Result<TokenCreation, PumpError>)
    ensures
        name.len() > MAX_NAME_LEN ==> r == Err::<TokenCreation, PumpError>(PumpError::NameTooLong),
        name.len() <= MAX_NAME_LEN && symbol.len() > MAX_SYMBOL_LEN ==> r == Err::<
            TokenCreation,
            PumpError,
        >(PumpError::SymbolTooLong),
        name.len() <= MAX_NAME_LEN && symbol.len() <= MAX_SYMBOL_LEN && uri.len() > MAX_URI_LEN
            ==> r == Err::<TokenCreation, PumpError>(PumpError::UriTooLong),
        name.len() <= MAX_NAME_LEN && symbol.len() <= MAX_SYMBOL_LEN && uri.len() <= MAX_URI_LEN
            ==> r == Ok::<TokenCreation, PumpError>(
            TokenCreation {
                curve: ReserveSnapshot {
                    virtual_base_reserves: INITIAL_VIRTUAL_TOKEN_RESERVES,
                    virtual_quote_reserves: INITIAL_VIRTUAL_SOL_RESERVES,
                    real_base_reserves: (TOKEN_TOTAL_SUPPLY - TOKEN_TOTAL_SUPPLY / 5) as u64,
                    real_quote_reserves: 0,
                    total_supply: TOKEN_TOTAL_SUPPLY,
                    is_complete: false,
                    graduation_threshold: GRADUATION_THRESHOLD,
                    fee_basis_points: LAUNCH_FEE_BASIS_POINTS,
                },
                creator_allotment: TOKEN_TOTAL_SUPPLY / 5,
            },
        ),
        r matches Ok(c) ==> c.curve.wf(),
{
    if name.len() > MAX_NAME_LEN {
        return Err(PumpError::NameTooLong);
    }
    if symbol.len() > MAX_SYMBOL_LEN {
        return Err(PumpError::SymbolTooLong);
    }
    if uri.len() > MAX_URI_LEN {
        return Err(PumpError::UriTooLong);
    }
    let creator_allotment = TOKEN_TOTAL_SUPPLY / 5;
    Ok(
        TokenCreation {
            curve: ReserveSnapshot {
                virtual_base_reserves: INITIAL_VIRTUAL_TOKEN_RESERVES,
                virtual_quote_reserves: INITIAL_VIRTUAL_SOL_RESERVES,
                real_base_reserves: TOKEN_TOTAL_SUPPLY - creator_allotment,
                real_quote_reserves: 0,
                total_supply: TOKEN_TOTAL_SUPPLY,
                is_complete: false,
                graduation_threshold: GRADUATION_THRESHOLD,
                fee_basis_points: LAUNCH_FEE_BASIS_POINTS,
            },
            creator_allotment,
        },
    )
}

/// Decides the hand-over of a completed curve to an external pool, at most once: a curve
/// already handed over is refused first, then one not yet complete. 80% of the supply
/// and 90% of the custodied quote reserve go to the pool (truncated), the rest of the
/// supply to the creator.
pub fn graduate_token(curve: &ReserveSnapshot, already_graduated: bool) -> (r: Result<
    GraduationPlan,
    PumpError,
>)
    ensures
        already_graduated ==> r == Err::<GraduationPlan, PumpError>(
            PumpError::TokenAlreadyGraduated,
        ),
        !already_graduated && !curve.is_complete ==> r == Err::<GraduationPlan, PumpError>(
            PumpError::GraduationThresholdNotMet,
        ),
        curve.is_complete && !already_graduated ==> r == Ok::<GraduationPlan, PumpError>(
            GraduationPlan {
                token_liquidity: (curve.total_supply * POOL_TOKEN_PERCENT / 100) as u64,
                sol_liquidity: (curve.real_quote_reserves * POOL_QUOTE_PERCENT / 100) as u64,
                creator_tokens: (curve.total_supply - curve.total_supply * POOL_TOKEN_PERCENT
                    / 100) as u64,
            },
        ),
{
    if already_graduated {
        return Err(PumpError::TokenAlreadyGraduated);
    }
    if !curve.is_complete {
        return Err(PumpError::GraduationThresholdNotMet);
    }
    let token_liquidity = (curve.total_supply as u128 * POOL_TOKEN_PERCENT as u128 / 100) as u64;
    let sol_liquidity = (curve.real_quote_reserves as u128 * POOL_QUOTE_PERCENT as u128 / 100) as u64;
    Ok(
        GraduationPlan {
            token_liquidity,
            sol_liquidity,
            creator_tokens: curve.total_supply - token_liquidity,
        },
    )
}

} // verus!
