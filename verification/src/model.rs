//! The ledger as a mathematical value, and the four operations of the
//! engine as functions on it.
//!
//! Every contract of the engine is stated over this model: what an operation
//! returns is `*_result` of the ledger before the call, and the ledger after
//! the call is `after_*` of it.

use vstd::prelude::*;
use crate::error::EngineError;
use crate::gate::{TransferFailed, TransferRequest};
use crate::identity::{Identity, MarketId, PositionId};
use crate::market::{Market, Side};
use crate::position::Position;
use crate::settlement::payable;

verus! {

/// What has been staked on `side` of the market `market_id` by the
/// positions in `positions`.
pub open spec fn staked(positions: Seq<Position>, market_id: MarketId, side: Side) -> nat
    decreases positions.len(),
{
    if positions.len() == 0 {
        0
    } else {
        let last = positions.last();
        staked(positions.drop_last(), market_id, side) + if last.market_id == market_id
            && last.side == side {
            last.amount as nat
        } else {
            0
        }
    }
}

/// What has been paid out to the positions of `market` in `positions`: what
/// those that are claimed were paid.
pub open spec fn paid(positions: Seq<Position>, market: Market) -> nat
    decreases positions.len(),
{
    if positions.len() == 0 {
        0
    } else {
        let last = positions.last();
        paid(positions.drop_last(), market) + if last.market_id == market.id && last.claimed {
            payable(last, market) as nat
        } else {
            0
        }
    }
}

/// The ledger: the markets by their identifiers, and the positions in the
/// order in which they were recorded.
pub struct Ledger {
    pub markets: Map<MarketId, Market>,
    pub positions: Seq<Position>,
}

impl Ledger {
    /// The ledger that holds nothing.
    pub open spec fn empty() -> Ledger {
        Ledger { markets: Map::empty(), positions: Seq::empty() }
    }

    /// The market stored under `id`.
    pub open spec fn market(self, id: MarketId) -> Option<Market> {
        if self.markets.contains_key(id) {
            Some(self.markets[id])
        } else {
            None
        }
    }

    /// The position stored under `id`.
    pub open spec fn position(self, id: PositionId) -> Option<Position> {
        if id < self.positions.len() {
            Some(self.positions[id as int])
        } else {
            None
        }
    }

    /// The market stored under `id` is stored under its own identifier, and
    /// its pools are what the positions staked on it.
    pub open spec fn market_consistent(self, id: MarketId) -> bool {
        let market = self.markets[id];
        &&& market.id == id
        &&& market.yes_pool == staked(self.positions, id, Side::Yes)
        &&& market.no_pool == staked(self.positions, id, Side::No)
    }

    /// The `i`-th position is numbered `i`, as far as a 64-bit identifier
    /// counts; it stakes something on a market that is stored, and is
    /// claimed only if that market is resolved.
    pub open spec fn position_consistent(self, i: int) -> bool {
        let position = self.positions[i];
        &&& i <= u64::MAX ==> position.id == i
        &&& position.amount > 0
        &&& self.markets.contains_key(position.market_id)
        &&& position.claimed ==> self.markets[position.market_id].outcome() is Some
    }

    /// The invariant of the ledger. It holds of the empty ledger, and every
    /// operation of the engine keeps it.
    pub open spec fn wf(self) -> bool {
        &&& forall|id: MarketId| #[trigger]
            self.markets.contains_key(id) ==> self.market_consistent(id)
        &&& forall|i: int| 0 <= i < self.positions.len() ==> #[trigger] self.position_consistent(i)
    }

    /// What `create_market` returns.
    pub open spec fn create_market_result(
        self,
        admin: Identity,
        market_id: MarketId,
    ) -> Result<Market, EngineError> {
        if self.markets.contains_key(market_id) {
            Err(EngineError::AlreadyExists)
        } else {
            Ok(Market::opened(market_id, admin))
        }
    }

    /// The ledger after `create_market`.
    pub open spec fn after_create_market(self, admin: Identity, market_id: MarketId) -> Ledger {
        match self.create_market_result(admin, market_id) {
            Ok(market) => Ledger { markets: self.markets.insert(market_id, market), ..self },
            Err(_) => self,
        }
    }

    /// The market `market_id` with the stake added, where the ledger takes
    /// the stake; else the reason why it does not.
    pub open spec fn enter_check(
        self,
        market_id: MarketId,
        side: Side,
        amount: u64,
    ) -> Result<Market, EngineError> {
        if !self.markets.contains_key(market_id) {
            Err(EngineError::MarketNotFound)
        } else {
            self.markets[market_id].stake_result(side, amount)
        }
    }

    /// What `plan_enter` returns.
    pub open spec fn enter_plan(
        self,
        market_id: MarketId,
        holder: Identity,
        side: Side,
        amount: u64,
    ) -> Result<TransferRequest, EngineError> {
        match self.enter_check(market_id, side, amount) {
            Err(error) => Err(error),
            Ok(_) => Ok(TransferRequest::deposit(market_id, holder, amount)),
        }
    }

    /// What `enter` returns.
    pub open spec fn enter_result(
        self,
        market_id: MarketId,
        holder: Identity,
        side: Side,
        amount: u64,
        transfer: Result<(), TransferFailed>,
    ) -> Result<Position, EngineError> {
        match self.enter_check(market_id, side, amount) {
            Err(error) => Err(error),
            Ok(_) => if transfer is Err {
                Err(EngineError::TransferFailed)
            } else {
                Ok(
                    Position::taken(
                        self.positions.len() as u64,
                        market_id,
                        holder,
                        side,
                        amount,
                    ),
                )
            },
        }
    }

    /// The ledger after `enter`.
    pub open spec fn after_enter(
        self,
        market_id: MarketId,
        holder: Identity,
        side: Side,
        amount: u64,
        transfer: Result<(), TransferFailed>,
    ) -> Ledger {
        match self.enter_result(market_id, holder, side, amount, transfer) {
            Ok(position) => Ledger {
                markets: self.markets.insert(
                    market_id,
                    self.enter_check(market_id, side, amount)->Ok_0,
                ),
                positions: self.positions.push(position),
            },
            Err(_) => self,
        }
    }

    /// What `resolve` returns.
    pub open spec fn resolve_result(
        self,
        market_id: MarketId,
        caller: Identity,
        outcome: Side,
    ) -> Result<Market, EngineError> {
        if !self.markets.contains_key(market_id) {
            Err(EngineError::MarketNotFound)
        } else {
            self.markets[market_id].resolve_result(caller, outcome)
        }
    }

    /// The ledger after `resolve`.
    pub open spec fn after_resolve(
        self,
        market_id: MarketId,
        caller: Identity,
        outcome: Side,
    ) -> Ledger {
        match self.resolve_result(market_id, caller, outcome) {
            Ok(market) => Ledger { markets: self.markets.insert(market_id, market), ..self },
            Err(_) => self,
        }
    }

    /// The position `position_id` of the market `market_id`, where it can
    /// be paid out; else the reason why it cannot.
    pub open spec fn claim_check(
        self,
        market_id: MarketId,
        position_id: PositionId,
    ) -> Result<Position, EngineError> {
        if !self.markets.contains_key(market_id) {
            Err(EngineError::MarketNotFound)
        } else if self.markets[market_id].outcome() is None {
            Err(EngineError::MarketNotResolved)
        } else if position_id >= self.positions.len()
            || self.positions[position_id as int].market_id != market_id {
            Err(EngineError::PositionNotFound)
        } else if self.positions[position_id as int].claimed {
            Err(EngineError::AlreadyClaimed)
        } else {
            Ok(self.positions[position_id as int])
        }
    }

    /// What `claim` pays where it succeeds: what the position is owed,
    /// capped at `u64::MAX`.
    pub open spec fn claim_amount(self, market_id: MarketId, position_id: PositionId) -> u64 {
        payable(self.positions[position_id as int], self.markets[market_id])
    }

    /// What `plan_claim` returns.
    pub open spec fn claim_plan(
        self,
        market_id: MarketId,
        position_id: PositionId,
    ) -> Result<TransferRequest, EngineError> {
        match self.claim_check(market_id, position_id) {
            Err(error) => Err(error),
            Ok(position) => Ok(
                TransferRequest::withdrawal(
                    market_id,
                    position.holder,
                    self.claim_amount(market_id, position_id),
                ),
            ),
        }
    }

    /// What `claim` returns.
    pub open spec fn claim_result(
        self,
        market_id: MarketId,
        position_id: PositionId,
        transfer: Result<(), TransferFailed>,
    ) -> Result<u64, EngineError> {
        match self.claim_check(market_id, position_id) {
            Err(error) => Err(error),
            Ok(_) => if transfer is Err {
                Err(EngineError::TransferFailed)
            } else {
                Ok(self.claim_amount(market_id, position_id))
            },
        }
    }

    /// The ledger after `claim`.
    pub open spec fn after_claim(
        self,
        market_id: MarketId,
        position_id: PositionId,
        transfer: Result<(), TransferFailed>,
    ) -> Ledger {
        match self.claim_result(market_id, position_id, transfer) {
            Ok(_) => Ledger {
                positions: self.positions.update(
                    position_id as int,
                    self.positions[position_id as int].settled(),
                ),
                ..self
            },
            Err(_) => self,
        }
    }

    /// What the escrow of the market `market_id` still holds: both pools,
    /// less what has been paid out.
    pub open spec fn retained(self, market_id: MarketId) -> int {
        self.markets[market_id].total() - paid(self.positions, self.markets[market_id])
    }
}

} // verus!
