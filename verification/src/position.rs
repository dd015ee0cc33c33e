//! A position: one stake of one holder on one side of one market.

use vstd::prelude::*;
use crate::identity::{Identity, MarketId, PositionId};
use crate::market::Side;

verus! {

/// One stake. Every accepted stake makes a position of its own: two stakes
/// of one holder on one side are two positions, each paid out by itself.
#[derive(Clone, Copy, Debug, PartialEq, Eq)]
pub struct Position {
    pub id: PositionId,
    pub market_id: MarketId,
    pub holder: Identity,
    pub side: Side,
    pub amount: u64,
    pub claimed: bool,
}

impl Position {
    /// The position as it is recorded: not yet paid out.
    pub open spec fn taken(
        id: PositionId,
        market_id: MarketId,
        holder: Identity,
        side: Side,
        amount: u64,
    ) -> Position {
        Position { id, market_id, holder, side, amount, claimed: false }
    }

    /// This position, paid out.
    pub open spec fn settled(self) -> Position {
        Position { claimed: true, ..self }
    }

    /// Records a stake of `amount` by `holder` on `side` of the market
    /// `market_id`, not yet paid out.
    pub fn take(
        id: PositionId,
        market_id: MarketId,
        holder: Identity,
        side: Side,
        amount: u64,
    ) -> (position: Position)
        ensures
            position == Position::taken(id, market_id, holder, side, amount),
    {
        Position { id, market_id, holder, side, amount, claimed: false }
    }

    /// Whether `self` and `other` are the same record, field for field.
    pub fn same_as(&self, other: &Position) -> (same: bool)
        ensures
            same == (*self == *other),
    {
        self.id == other.id && self.market_id.same_as(&other.market_id) && self.holder.same_as(
            &other.holder,
        ) && self.side == other.side && self.amount == other.amount && self.claimed
            == other.claimed
    }

    /// This position, marked as paid out.
    pub fn settle(&self) -> (position: Position)
        ensures
            position == self.settled(),
    {
        let mut next = *self;
        next.claimed = true;
        next
    }
}

} // verus!
