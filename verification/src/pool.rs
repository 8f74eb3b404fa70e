use vstd::prelude::*;

use crate::auth::Pubkey;
use crate::curve::{lemma_quote_bounds, spec_quote, swap_quote, FEE_SCALE};
use crate::errors::AmmError;

verus! {

/// Which asset the trader is selling into the pool.
#[derive(Clone, Copy, Debug, PartialEq, Eq, Structural)]
pub enum Side {
    X,
    Y,
}

/// The exact quantities one completed swap moved: what the trader paid in
/// and what the pool paid out.
#[derive(Clone, Copy, Debug, PartialEq, Eq, Structural)]
pub struct SwapResult {
    pub amount_deposited: u64,
    pub amount_withdrawn: u64,
}

/// The invariant-bearing pool record. The reserves are the live balances of
/// the two custody accounts, so settlement is the only way they change; the
/// fee is fixed at pool creation, and a locked pool rejects all trading
/// until its authority unlocks it again.
pub struct Pool {
    pub reserve_x: u64,
    pub reserve_y: u64,
    pub lp_supply: u64,
    pub fee_bps: u16,
    pub locked: bool,
    pub seed: u64,
    pub config_bump: u8,
    pub decimals: u8,
    pub authority: Option<Pubkey>,
}

impl Pool {
    /// The fee must describe a rate below one.
    pub open spec fn wf(self) -> bool {
        self.fee_bps < FEE_SCALE
    }

    /// The reserve the trader pays into, for a given side.
    pub open spec fn spec_reserve_in(self, side: Side) -> int {
        match side {
            Side::X => self.reserve_x as int,
            Side::Y => self.reserve_y as int,
        }
    }

    /// The reserve the trader is paid from, for a given side.
    pub open spec fn spec_reserve_out(self, side: Side) -> int {
        match side {
            Side::X => self.reserve_y as int,
            Side::Y => self.reserve_x as int,
        }
    }

    /// The constant-product quantity the pool must not let shrink.
    pub open spec fn product(self) -> int {
        self.reserve_x * self.reserve_y
    }

    /// The quote the curve gives for selling `amount_in` on `side` at the
    /// pool's current reserves and fee.
    pub open spec fn quote(self, side: Side, amount_in: int) -> int {
        spec_quote(self.spec_reserve_in(side), self.spec_reserve_out(side), self.fee_bps as int, amount_in)
    }

    /// Everything a swap call checks before it settles: trading enabled, a
    /// nonzero input, live reserves on both sides, room in the receiving
    /// custody account, and a quote at or above the caller's floor.
    pub open spec fn can_swap(self, side: Side, amount_in: int, min_out: int) -> bool {
        &&& !self.locked
        &&& amount_in > 0
        &&& self.spec_reserve_in(side) > 0
        &&& self.spec_reserve_out(side) > 0
        &&& self.spec_reserve_in(side) + amount_in <= u64::MAX
        &&& self.quote(side, amount_in) >= min_out
    }

    /// This pool with the two reserves replaced and everything else kept.
    pub open spec fn with_reserves(self, reserve_x: u64, reserve_y: u64) -> Pool {
        Pool { reserve_x, reserve_y, ..self }
    }

    /// Inbound settlement leg: the trader's payment lands in the custody
    /// account of the named asset. Fails, moving nothing, only when the
    /// balance cannot take the amount.
    pub fn deposit_tokens(&mut self, is_x: bool, amount: u64) -> (r: Result<(), AmmError>)
        ensures
            is_x && old(self).reserve_x + amount <= u64::MAX ==> r == Ok::<(), AmmError>(())
                && *final(self) == (old(self).with_reserves((old(self).reserve_x + amount) as u64, old(self).reserve_y)),
            is_x && old(self).reserve_x + amount > u64::MAX ==> r == Err::<(), AmmError>(AmmError::MathOverflow)
                && *final(self) == *old(self),
            !is_x && old(self).reserve_y + amount <= u64::MAX ==> r == Ok::<(), AmmError>(())
                && *final(self) == (old(self).with_reserves(old(self).reserve_x, (old(self).reserve_y + amount) as u64)),
            !is_x && old(self).reserve_y + amount > u64::MAX ==> r == Err::<(), AmmError>(AmmError::MathOverflow)
                && *final(self) == *old(self),
    {
        if is_x {
            if amount > u64::MAX - self.reserve_x {
                return Err(AmmError::MathOverflow);
            }
            self.reserve_x = self.reserve_x + amount;
        } else {
            if amount > u64::MAX - self.reserve_y {
                return Err(AmmError::MathOverflow);
            }
            self.reserve_y = self.reserve_y + amount;
        }
        Ok(())
    }

    /// Outbound settlement leg: the pool pays the trader from the custody
    /// account of the named asset. Fails, moving nothing, only when the
    /// balance cannot cover the amount.
    pub fn withdraw_tokens(&mut self, is_x: bool, amount: u64) -> (r: Result<(), AmmError>)
        ensures
            is_x && amount <= old(self).reserve_x ==> r == Ok::<(), AmmError>(())
                && *final(self) == (old(self).with_reserves((old(self).reserve_x - amount) as u64, old(self).reserve_y)),
            is_x && amount > old(self).reserve_x ==> r == Err::<(), AmmError>(AmmError::InsufficientLiquidity)
                && *final(self) == *old(self),
            !is_x && amount <= old(self).reserve_y ==> r == Ok::<(), AmmError>(())
                && *final(self) == (old(self).with_reserves(old(self).reserve_x, (old(self).reserve_y - amount) as u64)),
            !is_x && amount > old(self).reserve_y ==> r == Err::<(), AmmError>(AmmError::InsufficientLiquidity)
                && *final(self) == *old(self),
    {
        if is_x {
            if amount > self.reserve_x {
                return Err(AmmError::InsufficientLiquidity);
            }
            self.reserve_x = self.reserve_x - amount;
        } else {
            if amount > self.reserve_y {
                return Err(AmmError::InsufficientLiquidity);
            }
            self.reserve_y = self.reserve_y - amount;
        }
        Ok(())
    }

    /// Execute one trade: guard, quote, check the slippage floor, then
    /// settle both legs. Every failure leaves the pool exactly as it was;
    /// success moves exactly the quoted amounts, never drains the outgoing
    /// reserve, and never lets the reserve product shrink — a nonzero fee
    /// grows it strictly.
    pub fn swap(&mut self, side: Side, amount_in: u64, min_out: u64) -> (r: Result<SwapResult, AmmError>)
        requires
            old(self).wf(),
        ensures
            final(self).wf(),
            final(self).lp_supply == old(self).lp_supply,
            final(self).fee_bps == old(self).fee_bps,
            final(self).locked == old(self).locked,
            final(self).seed == old(self).seed,
            final(self).config_bump == old(self).config_bump,
            final(self).decimals == old(self).decimals,
            final(self).authority == old(self).authority,
            r is Err ==> *final(self) == *old(self),
            r is Ok <==> old(self).can_swap(side, amount_in as int, min_out as int),
            old(self).locked ==> r == Err::<SwapResult, AmmError>(AmmError::PoolLocked),
            !old(self).locked && amount_in == 0 ==> r == Err::<SwapResult, AmmError>(AmmError::InvalidAmount),
            !old(self).locked && amount_in > 0 && (old(self).spec_reserve_in(side) == 0
                || old(self).spec_reserve_out(side) == 0) ==> r == Err::<SwapResult, AmmError>(
                AmmError::InsufficientLiquidity,
            ),
            !old(self).locked && amount_in > 0 && old(self).spec_reserve_in(side) > 0
                && old(self).spec_reserve_out(side) > 0 && old(self).spec_reserve_in(side) + amount_in
                > u64::MAX ==> r == Err::<SwapResult, AmmError>(AmmError::MathOverflow),
            !old(self).locked && amount_in > 0 && old(self).spec_reserve_in(side) > 0
                && old(self).spec_reserve_out(side) > 0 && old(self).spec_reserve_in(side) + amount_in
                <= u64::MAX && old(self).quote(side, amount_in as int) < min_out ==> r == Err::<
                SwapResult,
                AmmError,
            >(AmmError::SlippageExceeded),
            old(self).can_swap(side, amount_in as int, min_out as int) ==> (r matches Ok(res)
                && res.amount_deposited == amount_in
                && res.amount_withdrawn == old(self).quote(side, amount_in as int)
                && res.amount_withdrawn < old(self).spec_reserve_out(side)
                && final(self).spec_reserve_in(side) == old(self).spec_reserve_in(side) + amount_in
                && final(self).spec_reserve_out(side) == old(self).spec_reserve_out(side)
                    - res.amount_withdrawn
                && final(self).product() >= old(self).product()
                && (old(self).fee_bps > 0 ==> final(self).product() > old(self).product())),
    {
        if self.locked {
            return Err(AmmError::PoolLocked);
        }
        if amount_in == 0 {
            return Err(AmmError::InvalidAmount);
        }
        let is_x = match side {
            Side::X => true,
            Side::Y => false,
        };
        let (reserve_in, reserve_out) = if is_x {
            (self.reserve_x, self.reserve_y)
        } else {
            (self.reserve_y, self.reserve_x)
        };
        let amount_out = match swap_quote(reserve_in, reserve_out, self.fee_bps, amount_in) {
            Ok(out) => out,
            Err(e) => {
                return Err(e);
            },
        };
        if reserve_in > u64::MAX - amount_in {
            return Err(AmmError::MathOverflow);
        }
        if amount_out < min_out {
            return Err(AmmError::SlippageExceeded);
        }
        proof {
            broadcast use vstd::arithmetic::mul::lemma_mul_is_commutative;

            lemma_quote_bounds(
                reserve_in as int,
                reserve_out as int,
                self.fee_bps as int,
                amount_in as int,
            );
        }
        let deposited = match self.deposit_tokens(is_x, amount_in) {
            Ok(()) => amount_in,
            Err(e) => {
                return Err(e);
            },
        };
        let withdrawn = match self.withdraw_tokens(!is_x, amount_out) {
            Ok(()) => amount_out,
            Err(e) => {
                return Err(e);
            },
        };
        Ok(SwapResult { amount_deposited: deposited, amount_withdrawn: withdrawn })
    }

    /// Toggle trading on or off. Only the recorded administrative authority
    /// may do so; a pool without one cannot be toggled at all. A rejected
    /// call leaves the pool exactly as it was.
    pub fn lock(&mut self, signer: &Pubkey, locked: bool) -> (r: Result<(), AmmError>)
        ensures
            old(self).authority is None ==> r == Err::<(), AmmError>(AmmError::NoAuthoritySet)
                && *final(self) == *old(self),
            old(self).authority matches Some(a) ==> (if a.bytes@ == signer.bytes@ {
                r == Ok::<(), AmmError>(()) && *final(self) == (Pool { locked, ..*old(self) })
            } else {
                r == Err::<(), AmmError>(AmmError::InvalidAuthority) && *final(self) == *old(self)
            }),
    {
        match &self.authority {
            None => Err(AmmError::NoAuthoritySet),
            Some(a) => {
                if a.eq_key(signer) {
                    self.locked = locked;
                    Ok(())
                } else {
                    Err(AmmError::InvalidAuthority)
                }
            },
        }
    }
}

} // verus!
