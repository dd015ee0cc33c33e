//! A market and its two transitions: taking a stake while open, and being
//! resolved once.

use vstd::prelude::*;
use crate::error::EngineError;
use crate::identity::{Identity, MarketId, VerifiedIdentity};

verus! {

/// One of the two outcomes that a market is about.
#[derive(Clone, Copy, Debug, PartialEq, Eq, Structural)]
pub enum Side {
    Yes,
    No,
}

impl Side {
    /// The side that a yes-or-no flag stands for.
    pub fn from_flag(is_yes: bool) -> (side: Side)
        ensures
            side == (if is_yes { Side::Yes } else { Side::No }),
    {
        if is_yes {
            Side::Yes
        } else {
            Side::No
        }
    }

    /// The byte that stands for this side where a side is stored or sent
    /// as a flag: 1 for yes, 0 for no.
    pub open spec fn byte(self) -> u8 {
        match self {
            Side::Yes => 1,
            Side::No => 0,
        }
    }

    /// The byte that stands for this side: 1 for yes, 0 for no.
    pub fn to_byte(&self) -> (byte: u8)
        ensures
            byte == self.byte(),
    {
        match self {
            Side::Yes => 1,
            Side::No => 0,
        }
    }

    /// The side that `byte` stands for: yes for 1, no for 0.
    ///
    /// Refused with `InvalidSide` for every other byte.
    pub fn from_byte(byte: u8) -> (result: Result<Side, EngineError>)
        ensures
            (match result {
                Ok(side) => side.byte() == byte,
                Err(error) => error == EngineError::InvalidSide && byte > 1,
            }),
    {
        if byte == 1 {
            Ok(Side::Yes)
        } else if byte == 0 {
            Ok(Side::No)
        } else {
            Err(EngineError::InvalidSide)
        }
    }

    /// The other side.
    pub open spec fn other(self) -> Side {
        match self {
            Side::Yes => Side::No,
            Side::No => Side::Yes,
        }
    }

    /// The other side.
    pub fn opposite(&self) -> (side: Side)
        ensures
            side == self.other(),
    {
        match self {
            Side::Yes => Side::No,
            Side::No => Side::Yes,
        }
    }
}

/// Where a market stands in its life. `Resolved` is final.
#[derive(Clone, Copy, Debug, PartialEq, Eq, Structural)]
pub enum MarketState {
    /// Stakes are taken.
    Open,
    /// The admin has named the side that won.
    Resolved { outcome: Side },
}

impl MarketState {
    /// The two flags that stand for this state where a market is stored
    /// flat: whether it is resolved, and whether yes won. The second is
    /// false while the market is open.
    pub open spec fn flags(self) -> (bool, bool) {
        match self {
            MarketState::Open => (false, false),
            MarketState::Resolved { outcome } => (true, outcome == Side::Yes),
        }
    }

    /// The state that the two flags stand for. While `resolved` is false
    /// the market is open, whatever `outcome_yes` says.
    pub open spec fn of_flags(resolved: bool, outcome_yes: bool) -> MarketState {
        if resolved {
            MarketState::Resolved { outcome: if outcome_yes { Side::Yes } else { Side::No } }
        } else {
            MarketState::Open
        }
    }

    /// The two flags that stand for this state: whether the market is
    /// resolved, and whether yes won.
    pub fn to_flags(&self) -> (flags: (bool, bool))
        ensures
            flags == self.flags(),
            MarketState::of_flags(flags.0, flags.1) == *self,
    {
        match self {
            MarketState::Open => (false, false),
            MarketState::Resolved { outcome: Side::Yes } => (true, true),
            MarketState::Resolved { outcome: Side::No } => (true, false),
        }
    }

    /// The state that the two flags stand for.
    pub fn from_flags(resolved: bool, outcome_yes: bool) -> (state: MarketState)
        ensures
            state == MarketState::of_flags(resolved, outcome_yes),
    {
        if resolved {
            MarketState::Resolved { outcome: Side::from_flag(outcome_yes) }
        } else {
            MarketState::Open
        }
    }
}

/// A market: who may resolve it, what has been staked on each side, and
/// whether it has been resolved.
#[derive(Clone, Copy, Debug, PartialEq, Eq)]
pub struct Market {
    pub id: MarketId,
    pub admin: Identity,
    pub yes_pool: u64,
    pub no_pool: u64,
    pub state: MarketState,
}

impl Market {
    /// The market as it is created: open, with nothing staked.
    pub open spec fn opened(id: MarketId, admin: Identity) -> Market {
        Market { id, admin, yes_pool: 0, no_pool: 0, state: MarketState::Open }
    }

    /// What is staked on `side`.
    pub open spec fn pool(self, side: Side) -> u64 {
        match side {
            Side::Yes => self.yes_pool,
            Side::No => self.no_pool,
        }
    }

    /// What is staked on both sides together.
    pub open spec fn total(self) -> int {
        self.yes_pool + self.no_pool
    }

    /// The side that won, once the market is resolved.
    pub open spec fn outcome(self) -> Option<Side> {
        match self.state {
            MarketState::Open => None,
            MarketState::Resolved { outcome } => Some(outcome),
        }
    }

    /// What `stake` returns: the market with `amount` added to the pool of
    /// `side`, or the reason why the stake is refused.
    pub open spec fn stake_result(self, side: Side, amount: u64) -> Result<Market, EngineError> {
        if self.state != MarketState::Open {
            Err(EngineError::MarketResolved)
        } else if amount == 0 {
            Err(EngineError::InvalidAmount)
        } else if self.pool(side) + amount > u64::MAX {
            Err(EngineError::Overflow)
        } else {
            Ok(
                match side {
                    Side::Yes => Market { yes_pool: (self.yes_pool + amount) as u64, ..self },
                    Side::No => Market { no_pool: (self.no_pool + amount) as u64, ..self },
                },
            )
        }
    }

    /// What `resolve` returns: the market resolved to `outcome`, or the
    /// reason why the caller may not resolve it.
    pub open spec fn resolve_result(
        self,
        caller: Identity,
        outcome: Side,
    ) -> Result<Market, EngineError> {
        if caller != self.admin {
            Err(EngineError::Unauthorized)
        } else if self.state != MarketState::Open {
            Err(EngineError::AlreadyResolved)
        } else {
            Ok(Market { state: MarketState::Resolved { outcome }, ..self })
        }
    }

    /// Creates a market: open, with empty pools.
    pub fn open(id: MarketId, admin: Identity) -> (market: Market)
        ensures
            market == Market::opened(id, admin),
    {
        Market { id, admin, yes_pool: 0, no_pool: 0, state: MarketState::Open }
    }

    /// Whether `self` and `other` are the same record, field for field.
    pub fn same_as(&self, other: &Market) -> (same: bool)
        ensures
            same == (*self == *other),
    {
        self.id.same_as(&other.id) && self.admin.same_as(&other.admin) && self.yes_pool
            == other.yes_pool && self.no_pool == other.no_pool && self.state == other.state
    }

    /// Whether the market still takes stakes.
    pub fn is_open(&self) -> (open: bool)
        ensures
            open == (self.state == MarketState::Open),
    {
        match self.state {
            MarketState::Open => true,
            MarketState::Resolved { .. } => false,
        }
    }

    /// The side that won, once the market is resolved.
    pub fn winner(&self) -> (winner: Option<Side>)
        ensures
            winner == self.outcome(),
    {
        match self.state {
            MarketState::Open => None,
            MarketState::Resolved { outcome } => Some(outcome),
        }
    }

    /// What is staked on `side`.
    pub fn pool_of(&self, side: Side) -> (pool: u64)
        ensures
            pool == self.pool(side),
    {
        match side {
            Side::Yes => self.yes_pool,
            Side::No => self.no_pool,
        }
    }

    /// What is staked on both sides together. Each pool is a 64-bit amount
    /// by itself, so the sum is taken in 128 bits.
    pub fn total_pool(&self) -> (total: u128)
        ensures
            total == self.total(),
    {
        self.yes_pool as u128 + self.no_pool as u128
    }

    /// Adds a stake of `amount` to the pool of `side`.
    ///
    /// The stake is refused with `MarketResolved` once the market is
    /// resolved, else with `InvalidAmount` where `amount` is zero, else with
    /// `Overflow` where the pool of `side` would pass the 64-bit bound. The
    /// other pool plays no part: each pool is bounded by itself, so stakes
    /// on the two sides do not stand in each other's way. The market itself
    /// is not changed: the new state is returned.
    pub fn stake(&self, side: Side, amount: u64) -> (result: Result<Market, EngineError>)
        ensures
            result == self.stake_result(side, amount),
    {
        if !self.is_open() {
            return Err(EngineError::MarketResolved);
        }
        if amount == 0 {
            return Err(EngineError::InvalidAmount);
        }
        let pool = match self.pool_of(side).checked_add(amount) {
            Some(pool) => pool,
            None => {
                return Err(EngineError::Overflow);
            },
        };
        let mut next = *self;
        match side {
            Side::Yes => {
                next.yes_pool = pool;
            },
            Side::No => {
                next.no_pool = pool;
            },
        }
        Ok(next)
    }

    /// Resolves the market to `outcome` on behalf of `caller`.
    ///
    /// Refused with `Unauthorized` where `caller` is not the admin, else
    /// with `AlreadyResolved` where the market is not open. The pools stay
    /// as they are. The market itself is not changed: the new state is
    /// returned.
    pub fn resolve(
        &self,
        caller: &VerifiedIdentity,
        outcome: Side,
    ) -> (result: Result<Market, EngineError>)
        ensures
            result == self.resolve_result(caller@, outcome),
    {
        if !caller.identity().same_as(&self.admin) {
            return Err(EngineError::Unauthorized);
        }
        if !self.is_open() {
            return Err(EngineError::AlreadyResolved);
        }
        let mut next = *self;
        next.state = MarketState::Resolved { outcome };
        Ok(next)
    }
}

} // verus!
