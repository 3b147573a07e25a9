use vstd::prelude::*;
use crate::error::ErrorCode;
use crate::pricing::{exact_buy_price, price_exact_buy, price_sell, sell_price};

verus! {

/// A launched token: its identity and metadata, its reserves, and the bookkeeping the
/// launch page shows. Addresses are held as their 32 raw bytes; times are seconds since
/// the epoch as the host's clock gave them.
#[derive(Debug, Clone)]
pub struct TokenLaunch {
    pub creator: [u8; 32],
    pub mint: [u8; 32],
    pub name: String,
    pub symbol: String,
    pub description: String,
    pub image_uri: String,
    pub website: Option<String>,
    pub telegram: Option<String>,
    pub twitter: Option<String>,
    pub total_supply: u64,
    pub initial_virtual_token_reserves: u64,
    pub initial_virtual_sol_reserves: u64,
    pub initial_real_token_reserves: u64,
    pub virtual_token_reserves: u64,
    pub virtual_sol_reserves: u64,
    pub real_token_reserves: u64,
    pub real_sol_reserves: u64,
    pub token_total_supply: u64,
    pub complete: bool,
    pub bump: u8,
    pub created_at: i64,
    pub updated_at: i64,
    pub migration_fee: u64,
    pub king_of_hill_timestamp: i64,
    pub market_cap: u64,
    pub reply_count: u64,
    pub nsfw: bool,
    pub market_id: u64,
    pub inverted: bool,
}

/// The whole supply valued at the virtual reserves: `sol * supply / tokens`.
pub open spec fn launch_market_cap(
    virtual_sol_reserves: int,
    token_total_supply: int,
    virtual_token_reserves: int,
) -> int {
    virtual_sol_reserves * token_total_supply / virtual_token_reserves
}

impl TokenLaunch {
    /// A fresh launch at time `now`: the virtual and real reserves start at the initial
    /// ones, nothing is custodied in sol, and every counter is zero.
    pub fn initialize(
        creator: [u8; 32],
        mint: [u8; 32],
        name: String,
        symbol: String,
        description: String,
        image_uri: String,
        website: Option<String>,
        telegram: Option<String>,
        twitter: Option<String>,
        total_supply: u64,
        initial_virtual_token_reserves: u64,
        initial_virtual_sol_reserves: u64,
        initial_real_token_reserves: u64,
        bump: u8,
        migration_fee: u64,
        market_id: u64,
        inverted: bool,
        now: i64,
    ) -> (r: TokenLaunch)
        ensures
            r == (TokenLaunch {
                creator,
                mint,
                name,
                symbol,
                description,
                image_uri,
                website,
                telegram,
                twitter,
                total_supply,
                initial_virtual_token_reserves,
                initial_virtual_sol_reserves,
                initial_real_token_reserves,
                virtual_token_reserves: initial_virtual_token_reserves,
                virtual_sol_reserves: initial_virtual_sol_reserves,
                real_token_reserves: initial_real_token_reserves,
                real_sol_reserves: 0,
                token_total_supply: total_supply,
                complete: false,
                bump,
                created_at: now,
                updated_at: now,
                migration_fee,
                king_of_hill_timestamp: 0,
                market_cap: 0,
                reply_count: 0,
                nsfw: false,
                market_id,
                inverted,
            }),
    {
        TokenLaunch {
            creator,
            mint,
            name,
            symbol,
            description,
            image_uri,
            website,
            telegram,
            twitter,
            total_supply,
            initial_virtual_token_reserves,
            initial_virtual_sol_reserves,
            initial_real_token_reserves,
            virtual_token_reserves: initial_virtual_token_reserves,
            virtual_sol_reserves: initial_virtual_sol_reserves,
            real_token_reserves: initial_real_token_reserves,
            real_sol_reserves: 0,
            token_total_supply: total_supply,
            complete: false,
            bump,
            created_at: now,
            updated_at: now,
            migration_fee,
            king_of_hill_timestamp: 0,
            market_cap: 0,
            reply_count: 0,
            nsfw: false,
            market_id,
            inverted,
        }
    }

    /// Sets the four reserves at time `now` and revalues the market cap when a virtual
    /// token reserve is left. Fails with `Overflow`, changing nothing, where the new
    /// market cap does not fit.
    pub fn update_reserves(
        &mut self,
        virtual_token_reserves: u64,
        virtual_sol_reserves: u64,
        real_token_reserves: u64,
        real_sol_reserves: u64,
        now: i64,
    ) -> (r: Result<(), ErrorCode>)
        ensures
            ({
                let cap = launch_market_cap(
                    virtual_sol_reserves as int,
                    old(self).token_total_supply as int,
                    virtual_token_reserves as int,
                );
                if virtual_token_reserves > 0 && cap > u64::MAX {
                    r == Err::<(), ErrorCode>(ErrorCode::Overflow) && *final(self) == *old(self)
                } else {
                    r == Ok::<(), ErrorCode>(()) && *final(self) == (TokenLaunch {
                        virtual_token_reserves,
                        virtual_sol_reserves,
                        real_token_reserves,
                        real_sol_reserves,
                        updated_at: now,
                        market_cap: if virtual_token_reserves > 0 {
                            cap as u64
                        } else {
                            old(self).market_cap
                        },
                        ..*old(self)
                    })
                }
            }),
    {
        let mut market_cap = self.market_cap;
        if virtual_token_reserves > 0 {
            proof {
                vstd::arithmetic::mul::lemma_mul_upper_bound(
                    virtual_sol_reserves as int,
                    u64::MAX as int,
                    self.token_total_supply as int,
                    u64::MAX as int,
                );
            }
            let cap: u128 = virtual_sol_reserves as u128 * self.token_total_supply as u128
                / virtual_token_reserves as u128;
            if cap > u64::MAX as u128 {
                return Err(ErrorCode::Overflow);
            }
            market_cap = cap as u64;
        }
        self.virtual_token_reserves = virtual_token_reserves;
        self.virtual_sol_reserves = virtual_sol_reserves;
        self.real_token_reserves = real_token_reserves;
        self.real_sol_reserves = real_sol_reserves;
        self.updated_at = now;
        self.market_cap = market_cap;
        Ok(())
    }

    /// Marks the launch complete at time `now`, which also crowns it king of the hill.
    pub fn complete_launch(&mut self, now: i64)
        ensures
            *final(self) == (TokenLaunch {
                complete: true,
                updated_at: now,
                king_of_hill_timestamp: now,
                ..*old(self)
            }),
    {
        self.complete = true;
        self.updated_at = now;
        self.king_of_hill_timestamp = now;
    }

    /// Counts one more reply at time `now`; `Overflow`, changing nothing, at the counter's limit.
    pub fn increment_reply_count(&mut self, now: i64) -> (r: Result<(), ErrorCode>)
        ensures
            old(self).reply_count == u64::MAX ==> r == Err::<(), ErrorCode>(ErrorCode::Overflow)
                && *final(self) == *old(self),
            old(self).reply_count < u64::MAX ==> r == Ok::<(), ErrorCode>(()) && *final(self) == (
            TokenLaunch { reply_count: (old(self).reply_count + 1) as u64, updated_at: now, ..*old(self) }),
    {
        if self.reply_count == u64::MAX {
            return Err(ErrorCode::Overflow);
        }
        self.reply_count = self.reply_count + 1;
        self.updated_at = now;
        Ok(())
    }

    /// Sets the not-safe-for-work flag at time `now`.
    pub fn set_nsfw(&mut self, nsfw: bool, now: i64)
        ensures
            *final(self) == (TokenLaunch { nsfw, updated_at: now, ..*old(self) }),
    {
        self.nsfw = nsfw;
        self.updated_at = now;
    }

    /// Sol needed to take exactly `amount` tokens off the launch's curve, rounded up in
    /// the curve's favour.
    pub fn get_buy_price(&self, amount: u64) -> (r: Result<u64, ErrorCode>)
        ensures
            r == exact_buy_price(
                self.complete,
                self.virtual_sol_reserves,
                self.virtual_token_reserves,
                amount,
            ),
            r matches Ok(c) ==> (self.virtual_token_reserves - amount) * (self.virtual_sol_reserves
                + c) >= self.virtual_sol_reserves * self.virtual_token_reserves,
    {
        price_exact_buy(self.complete, self.virtual_sol_reserves, self.virtual_token_reserves, amount)
    }

    /// Sol returned for putting `amount` tokens back into the launch's curve, rounded down
    /// in the curve's favour.
    pub fn get_sell_price(&self, amount: u64) -> (r: Result<u64, ErrorCode>)
        ensures
            r == sell_price(
                self.complete,
                self.virtual_sol_reserves,
                self.virtual_token_reserves,
                amount,
            ),
            r matches Ok(p) ==> p < self.virtual_sol_reserves && (self.virtual_token_reserves
                + amount) * (self.virtual_sol_reserves - p) >= self.virtual_sol_reserves
                * self.virtual_token_reserves,
    {
        price_sell(self.complete, self.virtual_sol_reserves, self.virtual_token_reserves, amount)
    }
}

} // verus!
