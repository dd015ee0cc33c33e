//! The market engine: the four operations on the ledger.
//!
//! The engine holds the ledger store and nothing else. Each operation reads
//! the records it needs, decides, and writes; an operation that is refused
//! writes nothing.
//!
//! Two operations need value moved, which only the host's transfer gate
//! can do. For each the engine offers a `plan_*` function, which checks the
//! request and names the transfer, and the operation itself, which takes
//! the answer of the transfer gate. A host runs `plan_*`, the transfer and
//! the operation inside one exclusive section per market, so that no other
//! operation on the market comes between them. The operation checks the
//! request again and does not rely on it.

use vstd::prelude::*;
use crate::consistency::{
    lemma_claim_keeps_wf,
    lemma_create_market_keeps_wf,
    lemma_empty_wf,
    lemma_enter_keeps_wf,
    lemma_resolve_keeps_wf,
};
use crate::error::EngineError;
use crate::gate::{Account, TransferFailed, TransferRequest};
use crate::identity::{Identity, MarketId, PositionId, VerifiedIdentity};
use crate::ledger::LedgerStore;
use crate::market::{Market, Side};
use crate::model::{paid, Ledger};
use crate::position::Position;
use crate::settlement::payout;
use crate::solvency::{lemma_paid_so_far, lemma_solvent};

verus! {

/// The market engine.
pub struct MarketEngine {
    store: LedgerStore,
}

impl View for MarketEngine {
    type V = Ledger;

    closed spec fn view(&self) -> Ledger {
        self.store@
    }
}

impl MarketEngine {
    /// An engine over an empty ledger.
    pub fn new() -> (engine: MarketEngine)
        ensures
            engine@ == Ledger::empty(),
            engine@.wf(),
    {
        proof {
            lemma_empty_wf();
        }
        MarketEngine { store: LedgerStore::new() }
    }

    /// The market stored under `id`.
    pub fn market(&self, id: &MarketId) -> (found: Option<Market>)
        ensures
            found == self@.market(*id),
    {
        self.store.get_market(id)
    }

    /// The position stored under `id`.
    pub fn position(&self, id: PositionId) -> (found: Option<Position>)
        ensures
            found == self@.position(id),
    {
        self.store.get_position(id)
    }

    /// Creates the market `market_id`, open and with empty pools, to be
    /// resolved by `admin`.
    ///
    /// Refused with `AlreadyExists` where a market is stored under
    /// `market_id`.
    pub fn create_market(
        &mut self,
        admin: Identity,
        market_id: MarketId,
    ) -> (result: Result<Market, EngineError>)
        requires
            old(self)@.wf(),
        ensures
            result == old(self)@.create_market_result(admin, market_id),
            final(self)@ == old(self)@.after_create_market(admin, market_id),
            final(self)@.wf(),
    {
        proof {
            lemma_create_market_keeps_wf(self@, admin, market_id);
        }
        let market = Market::open(market_id, admin);
        match self.store.put_market(None, market) {
            Ok(()) => Ok(market),
            Err(_) => Err(EngineError::AlreadyExists),
        }
    }

    /// The market `market_id` with the stake added, where the ledger takes
    /// the stake.
    fn check_enter(
        &self,
        market_id: &MarketId,
        side: Side,
        amount: u64,
    ) -> (result: Result<(Market, Market), EngineError>)
        ensures
            (match result {
                Ok((market, next)) => self@.market(*market_id) == Some(market)
                    && self@.enter_check(*market_id, side, amount) == Ok::<Market, EngineError>(
                    next,
                ),
                Err(error) => self@.enter_check(*market_id, side, amount) == Err::<
                    Market,
                    EngineError,
                >(error),
            }),
    {
        let market = match self.store.get_market(market_id) {
            Some(market) => market,
            None => {
                return Err(EngineError::MarketNotFound);
            },
        };
        let next = match market.stake(side, amount) {
            Ok(next) => next,
            Err(error) => {
                return Err(error);
            },
        };
        Ok((market, next))
    }

    /// Checks a stake of `amount` by `holder` on `side` of the market
    /// `market_id`, and names the transfer that is to back it: `amount`
    /// from the holder into the market's escrow.
    ///
    /// Refused as `enter` refuses it, but for the answer of the transfer
    /// gate. The ledger is not changed.
    pub fn plan_enter(
        &self,
        market_id: MarketId,
        holder: Identity,
        side: Side,
        amount: u64,
    ) -> (result: Result<TransferRequest, EngineError>)
        ensures
            result == self@.enter_plan(market_id, holder, side, amount),
    {
        match self.check_enter(&market_id, side, amount) {
            Ok(_) => Ok(
                TransferRequest {
                    from: Account::Holder(holder),
                    to: Account::Escrow(market_id),
                    amount,
                },
            ),
            Err(error) => Err(error),
        }
    }

    /// Takes a stake of `amount` by `holder` on `side` of the market
    /// `market_id`, given the answer of the transfer gate to the transfer
    /// that `plan_enter` named.
    ///
    /// Refused with `MarketNotFound` where no market is stored under
    /// `market_id`; else with `MarketResolved` where the market is not
    /// open; else with `InvalidAmount` where `amount` is zero; else with
    /// `Overflow` where the pool of `side` would pass the 64-bit bound;
    /// else with `TransferFailed` where the transfer gate did not move the
    /// value. Where it is refused nothing is changed. Else `amount` is
    /// added to the pool of `side`, and a new position is appended and
    /// returned: a stake is never merged into an earlier position. The
    /// other pool is neither read nor changed, so stakes on the two sides
    /// are taken in any order with the same end.
    pub fn enter(
        &mut self,
        market_id: MarketId,
        holder: Identity,
        side: Side,
        amount: u64,
        transfer: Result<(), TransferFailed>,
    ) -> (result: Result<Position, EngineError>)
        requires
            old(self)@.wf(),
        ensures
            result == old(self)@.enter_result(market_id, holder, side, amount, transfer),
            final(self)@ == old(self)@.after_enter(market_id, holder, side, amount, transfer),
            final(self)@.wf(),
    {
        proof {
            lemma_enter_keeps_wf(self@, market_id, holder, side, amount, transfer);
        }
        let (market, next) = match self.check_enter(&market_id, side, amount) {
            Ok(pair) => pair,
            Err(error) => {
                return Err(error);
            },
        };
        if transfer.is_err() {
            return Err(EngineError::TransferFailed);
        }
        let id = self.store.position_count() as u64;
        let position = Position::take(id, market_id, holder, side, amount);
        // The engine holds the store alone: both records are still as they
        // were read, so neither write can be stale.
        let appended = self.store.put_position(id, None, position);
        let updated = self.store.put_market(Some(market), next);
        assert(appended is Ok && updated is Ok);
        Ok(position)
    }

    /// Resolves the market `market_id` to `outcome` on behalf of `caller`.
    ///
    /// Refused with `MarketNotFound` where no market is stored under
    /// `market_id`; else with `Unauthorized` where `caller` is not the
    /// market's admin; else with `AlreadyResolved` where the market is not
    /// open. Where it is refused nothing is changed. Else the market is
    /// resolved, with its pools as they were, and returned. A side on which
    /// nothing was staked may win: then no position is paid anything, and
    /// the escrow keeps both pools.
    pub fn resolve(
        &mut self,
        market_id: MarketId,
        caller: &VerifiedIdentity,
        outcome: Side,
    ) -> (result: Result<Market, EngineError>)
        requires
            old(self)@.wf(),
        ensures
            result == old(self)@.resolve_result(market_id, caller@, outcome),
            final(self)@ == old(self)@.after_resolve(market_id, caller@, outcome),
            final(self)@.wf(),
    {
        proof {
            lemma_resolve_keeps_wf(self@, market_id, caller@, outcome);
        }
        let market = match self.store.get_market(&market_id) {
            Some(market) => market,
            None => {
                return Err(EngineError::MarketNotFound);
            },
        };
        let next = match market.resolve(caller, outcome) {
            Ok(next) => next,
            Err(error) => {
                return Err(error);
            },
        };
        // The market is still as it was read, so the write cannot be stale.
        let updated = self.store.put_market(Some(market), next);
        assert(updated is Ok);
        Ok(next)
    }

    /// The position `position_id` of the market `market_id` and what it is
    /// paid, where it can be paid out.
    fn check_claim(
        &self,
        market_id: &MarketId,
        position_id: PositionId,
    ) -> (result: Result<(Position, u64), EngineError>)
        ensures
            (match result {
                Ok((position, amount)) => self@.claim_check(*market_id, position_id) == Ok::<
                    Position,
                    EngineError,
                >(position) && amount == self@.claim_amount(*market_id, position_id),
                Err(error) => self@.claim_check(*market_id, position_id) == Err::<
                    Position,
                    EngineError,
                >(error),
            }),
    {
        let market = match self.store.get_market(market_id) {
            Some(market) => market,
            None => {
                return Err(EngineError::MarketNotFound);
            },
        };
        if market.is_open() {
            return Err(EngineError::MarketNotResolved);
        }
        let position = match self.store.get_position(position_id) {
            Some(position) => position,
            None => {
                return Err(EngineError::PositionNotFound);
            },
        };
        if !position.market_id.same_as(market_id) {
            return Err(EngineError::PositionNotFound);
        }
        if position.claimed {
            return Err(EngineError::AlreadyClaimed);
        }
        Ok((position, payout(&position, &market)))
    }

    /// Checks a claim of the position `position_id` of the market
    /// `market_id`, and names the transfer that is to pay it out: the
    /// position's payout from the market's escrow to the holder.
    ///
    /// Refused as `claim` refuses it, but for the answer of the transfer
    /// gate. The ledger is not changed.
    pub fn plan_claim(
        &self,
        market_id: MarketId,
        position_id: PositionId,
    ) -> (result: Result<TransferRequest, EngineError>)
        ensures
            result == self@.claim_plan(market_id, position_id),
    {
        match self.check_claim(&market_id, position_id) {
            Ok((position, amount)) => Ok(
                TransferRequest {
                    from: Account::Escrow(market_id),
                    to: Account::Holder(position.holder),
                    amount,
                },
            ),
            Err(error) => Err(error),
        }
    }

    /// Pays out the position `position_id` of the market `market_id`,
    /// given the answer of the transfer gate to the transfer that
    /// `plan_claim` named.
    ///
    /// Refused with `MarketNotFound` where no market is stored under
    /// `market_id`; else with `MarketNotResolved` where the market is
    /// open; else with `PositionNotFound` where no position is stored under
    /// `position_id` or the position is one of another market; else with
    /// `AlreadyClaimed` where the position has been paid out; else with
    /// `TransferFailed` where the transfer gate did not move the value.
    /// Where it is refused nothing is changed. Else the position is marked
    /// as claimed and what it is paid is returned: what it is owed, capped
    /// at `u64::MAX`. The cap is reached only where both pools together
    /// pass the 64-bit bound; what it withholds stays in escrow and is
    /// counted by `retained`.
    pub fn claim(
        &mut self,
        market_id: MarketId,
        position_id: PositionId,
        transfer: Result<(), TransferFailed>,
    ) -> (result: Result<u64, EngineError>)
        requires
            old(self)@.wf(),
        ensures
            result == old(self)@.claim_result(market_id, position_id, transfer),
            final(self)@ == old(self)@.after_claim(market_id, position_id, transfer),
            final(self)@.wf(),
    {
        proof {
            lemma_claim_keeps_wf(self@, market_id, position_id, transfer);
        }
        let (position, amount) = match self.check_claim(&market_id, position_id) {
            Ok(pair) => pair,
            Err(error) => {
                return Err(error);
            },
        };
        if transfer.is_err() {
            return Err(EngineError::TransferFailed);
        }
        // The position is still as it was read, so the write cannot be stale.
        let marked = self.store.put_position(position_id, Some(position), position.settle());
        assert(marked is Ok);
        Ok(amount)
    }

    /// What the escrow of the market `market_id` still holds: both pools,
    /// less what the positions that have been claimed were paid.
    ///
    /// While the market is open this is what has been staked. Once every
    /// winning position is claimed, it is what rounding down and the 64-bit
    /// cap of a payout have left over, or both pools where nothing was
    /// staked on the side that won: the engine keeps account of it here,
    /// and no operation pays it out. The two pools together can pass the
    /// 64-bit bound, so the amount is given in 128 bits. Refused with
    /// `MarketNotFound` where no market is stored under `market_id`.
    pub fn retained(&self, market_id: MarketId) -> (result: Result<u128, EngineError>)
        requires
            self@.wf(),
        ensures
            (match result {
                Ok(held) => self@.markets.contains_key(market_id) && held == self@.retained(
                    market_id,
                ),
                Err(error) => !self@.markets.contains_key(market_id) && error
                    == EngineError::MarketNotFound,
            }),
    {
        let market = match self.store.get_market(&market_id) {
            Some(market) => market,
            None => {
                return Err(EngineError::MarketNotFound);
            },
        };
        let count = self.store.position_count();
        let mut paid_out: u128 = 0;
        let mut i: usize = 0;
        while i < count
            invariant
                self@.wf(),
                self@.market(market_id) == Some(market),
                count == self@.positions.len(),
                i <= count,
                paid_out == paid(self@.positions.take(i as int), market),
            decreases count - i,
        {
            proof {
                assert(self@.positions.take(i + 1).drop_last() =~= self@.positions.take(i as int));
                lemma_paid_so_far(self@, market_id, i + 1);
            }
            if let Some(position) = self.store.get_position(i as u64) {
                if position.market_id.same_as(&market_id) && position.claimed {
                    paid_out = paid_out + payout(&position, &market) as u128;
                }
            }
            i += 1;
        }
        proof {
            assert(self@.positions.take(i as int) =~= self@.positions);
            lemma_solvent(self@, market_id);
        }
        Ok(market.total_pool() - paid_out)
    }
}

} // verus!
