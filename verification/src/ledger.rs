//! The ledger store: the records of the markets and of the positions, read
//! by identifier and written by compare-and-set.
//!
//! A write names the state that the writer has read. It is carried out only
//! if the record is still in that state, so a writer that has lost a race
//! learns of it and nothing is overwritten unseen. No record is ever
//! removed.

use vstd::prelude::*;
use crate::identity::{MarketId, PositionId};
use crate::market::Market;
use crate::model::Ledger;
use crate::position::Position;

verus! {

/// Why the store refused a write.
#[derive(Clone, Copy, Debug, PartialEq, Eq, Structural)]
pub enum StoreError {
    /// The record is not in the state that the writer expected.
    Stale,
}

/// The first market of the list that has the identifier `id`.
spec fn lookup(markets: Seq<Market>, id: MarketId) -> Option<Market>
    decreases markets.len(),
{
    if markets.len() == 0 {
        None
    } else if lookup(markets.drop_last(), id) is Some {
        lookup(markets.drop_last(), id)
    } else if markets.last().id == id {
        Some(markets.last())
    } else {
        None
    }
}

/// The markets of a list, by their identifiers.
spec fn markets_by_id(markets: Seq<Market>) -> Map<MarketId, Market> {
    Map::new(|id: MarketId| lookup(markets, id) is Some, |id: MarketId| lookup(markets, id)->0)
}

/// A market that none before it shares its identifier with is the one
/// that is found under it.
proof fn lemma_lookup_first(markets: Seq<Market>, id: MarketId, at: int)
    requires
        0 <= at < markets.len(),
        markets[at].id == id,
        lookup(markets.take(at), id) is None,
    ensures
        lookup(markets, id) == Some(markets[at]),
    decreases markets.len(),
{
    if at == markets.len() - 1 {
        assert(markets.drop_last() =~= markets.take(at));
    } else {
        assert(markets.drop_last().take(at) =~= markets.take(at));
        lemma_lookup_first(markets.drop_last(), id, at);
    }
}

/// Appending a market under an identifier that is not in the list
/// inserts it.
proof fn lemma_push_inserts(markets: Seq<Market>, market: Market)
    requires
        lookup(markets, market.id) is None,
    ensures
        markets_by_id(markets.push(market)) == markets_by_id(markets).insert(market.id, market),
{
    assert(markets.push(market).drop_last() =~= markets);
    assert(markets_by_id(markets.push(market)) =~= markets_by_id(markets).insert(
        market.id,
        market,
    ));
}

/// Replacing the market that is found under an identifier by another of
/// that identifier changes what is found under it, and nothing else.
proof fn lemma_update_replaces(markets: Seq<Market>, at: int, market: Market, id: MarketId)
    requires
        0 <= at < markets.len(),
        markets[at].id == market.id,
        lookup(markets.take(at), market.id) is None,
    ensures
        lookup(markets.update(at, market), id) == (if id == market.id {
            Some(market)
        } else {
            lookup(markets, id)
        }),
    decreases markets.len(),
{
    let next = markets.update(at, market);
    if at == markets.len() - 1 {
        assert(next.drop_last() =~= markets.drop_last());
        assert(markets.drop_last() =~= markets.take(at));
    } else {
        assert(next.drop_last() =~= markets.drop_last().update(at, market));
        assert(markets.drop_last().take(at) =~= markets.take(at));
        lemma_update_replaces(markets.drop_last(), at, market, id);
    }
}

/// Replacing the market that is found under an identifier by another of
/// that identifier overwrites it.
proof fn lemma_update_inserts(markets: Seq<Market>, at: int, market: Market)
    requires
        0 <= at < markets.len(),
        markets[at].id == market.id,
        lookup(markets.take(at), market.id) is None,
    ensures
        markets_by_id(markets.update(at, market)) == markets_by_id(markets).insert(
            market.id,
            market,
        ),
{
    assert forall|id: MarketId|
        lookup(markets.update(at, market), id) == (if id == market.id {
            Some(market)
        } else {
            lookup(markets, id)
        }) by {
        lemma_update_replaces(markets, at, market, id);
    }
    assert(markets_by_id(markets.update(at, market)) =~= markets_by_id(markets).insert(
        market.id,
        market,
    ));
}

/// The records of the markets and of the positions.
pub struct LedgerStore {
    markets: Vec<Market>,
    positions: Vec<Position>,
}

impl View for LedgerStore {
    type V = Ledger;

    closed spec fn view(&self) -> Ledger {
        Ledger { markets: markets_by_id(self.markets@), positions: self.positions@ }
    }
}

impl LedgerStore {
    /// Where in the list the market `id` stands.
    fn find_market(&self, id: &MarketId) -> (found: Option<usize>)
        ensures
            (match found {
                Some(at) => at < self.markets@.len() && self.markets@[at as int].id == *id
                    && lookup(self.markets@.take(at as int), *id) is None && self@.market(*id)
                    == Some(self.markets@[at as int]),
                None => self@.market(*id) is None,
            }),
    {
        let mut i: usize = 0;
        while i < self.markets.len()
            invariant
                i <= self.markets.len(),
                lookup(self.markets@.take(i as int), *id) is None,
            decreases self.markets.len() - i,
        {
            if self.markets[i].id.same_as(id) {
                proof {
                    lemma_lookup_first(self.markets@, *id, i as int);
                }
                return Some(i);
            }
            assert(self.markets@.take(i + 1).drop_last() =~= self.markets@.take(i as int));
            i += 1;
        }
        assert(self.markets@.take(i as int) =~= self.markets@);
        None
    }

    /// A store that holds nothing.
    pub fn new() -> (store: LedgerStore)
        ensures
            store@ == Ledger::empty(),
    {
        let store = LedgerStore { markets: Vec::new(), positions: Vec::new() };
        assert(store@.markets =~= Map::empty());
        store
    }

    /// The market stored under `id`.
    pub fn get_market(&self, id: &MarketId) -> (found: Option<Market>)
        ensures
            found == self@.market(*id),
    {
        match self.find_market(id) {
            Some(i) => Some(self.markets[i]),
            None => None,
        }
    }

    /// Stores `market` under its identifier if the record there is still
    /// `expected`: absent for `None`, else equal to the market given.
    ///
    /// Otherwise the write is refused as stale and nothing is changed.
    pub fn put_market(
        &mut self,
        expected: Option<Market>,
        market: Market,
    ) -> (written: Result<(), StoreError>)
        ensures
            written is Ok <==> old(self)@.market(market.id) == expected,
            written is Ok ==> final(self)@ == (Ledger {
                markets: old(self)@.markets.insert(market.id, market),
                ..old(self)@
            }),
            written is Err ==> final(self)@ == old(self)@,
    {
        match (self.find_market(&market.id), expected) {
            (None, None) => {
                proof {
                    lemma_push_inserts(self.markets@, market);
                }
                self.markets.push(market);
                Ok(())
            },
            (Some(i), Some(seen)) => {
                if self.markets[i].same_as(&seen) {
                    proof {
                        lemma_update_inserts(self.markets@, i as int, market);
                    }
                    self.markets[i] = market;
                    Ok(())
                } else {
                    Err(StoreError::Stale)
                }
            },
            _ => Err(StoreError::Stale),
        }
    }

    /// How many positions are stored: the identifier that the next one
    /// gets.
    pub fn position_count(&self) -> (count: usize)
        ensures
            count == self@.positions.len(),
    {
        self.positions.len()
    }

    /// The position stored under `id`.
    pub fn get_position(&self, id: PositionId) -> (found: Option<Position>)
        ensures
            found == self@.position(id),
    {
        if id < self.positions.len() as u64 {
            Some(self.positions[id as usize])
        } else {
            None
        }
    }

    /// Stores `position` under `id` if the record there is still `expected`.
    ///
    /// With `Some`, the record must be equal to the position given, and is
    /// overwritten. With `None`, `id` must be the identifier that the next
    /// position gets, and the position is appended. Otherwise the write is
    /// refused as stale and nothing is changed.
    pub fn put_position(
        &mut self,
        id: PositionId,
        expected: Option<Position>,
        position: Position,
    ) -> (written: Result<(), StoreError>)
        ensures
            written is Ok <==> (old(self)@.position(id) == expected && (expected is None ==> id
                == old(self)@.positions.len())),
            written is Ok ==> final(self)@ == (Ledger {
                positions: if expected is None {
                    old(self)@.positions.push(position)
                } else {
                    old(self)@.positions.update(id as int, position)
                },
                ..old(self)@
            }),
            written is Err ==> final(self)@ == old(self)@,
    {
        let count = self.positions.len();
        match expected {
            None => {
                if id == count as u64 {
                    self.positions.push(position);
                    Ok(())
                } else {
                    Err(StoreError::Stale)
                }
            },
            Some(seen) => {
                if id < count as u64 && self.positions[id as usize].same_as(&seen) {
                    self.positions[id as usize] = position;
                    Ok(())
                } else {
                    Err(StoreError::Stale)
                }
            },
        }
    }
}

} // verus!
