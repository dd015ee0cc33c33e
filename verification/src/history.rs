//! Histories: the calls made on a ledger, one after another, and how the
//! ledger may change under them.
//!
//! The engine takes one call at a time. Calls that several parties make at
//! once reach it in some order, so what holds of every history holds
//! however they race.

use vstd::prelude::*;
use crate::consistency::{
    lemma_claim_keeps_wf,
    lemma_create_market_keeps_wf,
    lemma_enter_keeps_wf,
    lemma_resolve_keeps_wf,
};
use crate::gate::TransferFailed;
use crate::identity::{Identity, MarketId, PositionId};
use crate::market::{Market, MarketState, Side};
use crate::model::Ledger;
use crate::position::Position;

verus! {

/// One call of the engine, with the answer of the transfer gate where the
/// operation takes one.
pub enum Call {
    CreateMarket { admin: Identity, market_id: MarketId },
    Enter {
        market_id: MarketId,
        holder: Identity,
        side: Side,
        amount: u64,
        transfer: Result<(), TransferFailed>,
    },
    Resolve { market_id: MarketId, caller: Identity, outcome: Side },
    Claim { market_id: MarketId, position_id: PositionId, transfer: Result<(), TransferFailed> },
}

/// A later state of a market: the same market under the same admin; as it
/// was, if it was resolved; with pools no smaller, if it was open.
pub open spec fn market_becomes(before: Market, after: Market) -> bool {
    &&& after.id == before.id
    &&& after.admin == before.admin
    &&& before.state != MarketState::Open ==> after == before
    &&& after.yes_pool >= before.yes_pool
    &&& after.no_pool >= before.no_pool
}

/// A later state of a position: as it was, or claimed.
pub open spec fn position_becomes(before: Position, after: Position) -> bool {
    after == before || after == before.settled()
}

impl Ledger {
    /// Whether the engine carries `call` out on this ledger.
    pub open spec fn accepts(self, call: Call) -> bool {
        match call {
            Call::CreateMarket { admin, market_id } => self.create_market_result(
                admin,
                market_id,
            ) is Ok,
            Call::Enter { market_id, holder, side, amount, transfer } => self.enter_result(
                market_id,
                holder,
                side,
                amount,
                transfer,
            ) is Ok,
            Call::Resolve { market_id, caller, outcome } => self.resolve_result(
                market_id,
                caller,
                outcome,
            ) is Ok,
            Call::Claim { market_id, position_id, transfer } => self.claim_result(
                market_id,
                position_id,
                transfer,
            ) is Ok,
        }
    }

    /// The ledger after `call`.
    pub open spec fn after(self, call: Call) -> Ledger {
        match call {
            Call::CreateMarket { admin, market_id } => self.after_create_market(admin, market_id),
            Call::Enter { market_id, holder, side, amount, transfer } => self.after_enter(
                market_id,
                holder,
                side,
                amount,
                transfer,
            ),
            Call::Resolve { market_id, caller, outcome } => self.after_resolve(
                market_id,
                caller,
                outcome,
            ),
            Call::Claim { market_id, position_id, transfer } => self.after_claim(
                market_id,
                position_id,
                transfer,
            ),
        }
    }

    /// The ledger after the calls of `history`, made in their order.
    pub open spec fn after_all(self, history: Seq<Call>) -> Ledger
        decreases history.len(),
    {
        if history.len() == 0 {
            self
        } else {
            self.after_all(history.drop_last()).after(history.last())
        }
    }

    /// `later` may have come of this ledger: it holds every market and
    /// every position of this one, each in a later state.
    pub open spec fn becomes(self, later: Ledger) -> bool {
        &&& forall|id: MarketId| #[trigger]
            self.markets.contains_key(id) ==> later.markets.contains_key(id) && market_becomes(
                self.markets[id],
                later.markets[id],
            )
        &&& self.positions.len() <= later.positions.len()
        &&& forall|i: int|
            0 <= i < self.positions.len() ==> position_becomes(
                #[trigger] self.positions[i],
                later.positions[i],
            )
    }

    /// Whether the market `id` is stored and resolved.
    pub open spec fn is_resolved(self, id: MarketId) -> bool {
        self.markets.contains_key(id) && self.markets[id].outcome() is Some
    }

    /// Whether the position `id` is stored and claimed.
    pub open spec fn is_claimed(self, id: PositionId) -> bool {
        id < self.positions.len() && self.positions[id as int].claimed
    }

    /// What is staked on `side` of the market `id`; nothing, where no such
    /// market is stored.
    pub open spec fn pool(self, id: MarketId, side: Side) -> nat {
        if self.markets.contains_key(id) {
            self.markets[id].pool(side) as nat
        } else {
            0
        }
    }
}

/// Every call keeps the invariant of the ledger.
pub proof fn lemma_call_keeps_wf(ledger: Ledger, call: Call)
    requires
        ledger.wf(),
    ensures
        ledger.after(call).wf(),
{
    match call {
        Call::CreateMarket { admin, market_id } => {
            lemma_create_market_keeps_wf(ledger, admin, market_id);
        },
        Call::Enter { market_id, holder, side, amount, transfer } => {
            lemma_enter_keeps_wf(ledger, market_id, holder, side, amount, transfer);
        },
        Call::Resolve { market_id, caller, outcome } => {
            lemma_resolve_keeps_wf(ledger, market_id, caller, outcome);
        },
        Call::Claim { market_id, position_id, transfer } => {
            lemma_claim_keeps_wf(ledger, market_id, position_id, transfer);
        },
    }
}

/// Every history keeps the invariant of the ledger.
pub proof fn lemma_history_keeps_wf(ledger: Ledger, history: Seq<Call>)
    requires
        ledger.wf(),
    ensures
        ledger.after_all(history).wf(),
    decreases history.len(),
{
    if history.len() > 0 {
        lemma_history_keeps_wf(ledger, history.drop_last());
        lemma_call_keeps_wf(ledger.after_all(history.drop_last()), history.last());
    }
}

/// A history made in two parts gives the ledger that the whole gives.
pub proof fn lemma_history_splits(ledger: Ledger, history: Seq<Call>, n: int)
    requires
        0 <= n <= history.len(),
    ensures
        ledger.after_all(history) == ledger.after_all(history.take(n)).after_all(history.skip(n)),
    decreases history.len(),
{
    if n == history.len() {
        assert(history.take(n) =~= history);
        assert(history.skip(n).len() == 0);
    } else {
        lemma_history_splits(ledger, history.drop_last(), n);
        assert(history.drop_last().take(n) =~= history.take(n));
        assert(history.drop_last().skip(n) =~= history.skip(n).drop_last());
        assert(history.skip(n).last() == history.last());
    }
}

/// The life of the records: a call removes nothing. It leaves the admin of
/// each market and a resolved market as they are, makes no pool smaller,
/// and changes a position, if at all, from unclaimed to claimed.
pub proof fn lemma_call_moves_forward(ledger: Ledger, call: Call)
    ensures
        ledger.becomes(ledger.after(call)),
{
    let later = ledger.after(call);
    assert forall|id: MarketId| #[trigger] ledger.markets.contains_key(id) implies
        later.markets.contains_key(id) && market_becomes(
        ledger.markets[id],
        later.markets[id],
    ) by {}
    assert forall|i: int| 0 <= i < ledger.positions.len() implies position_becomes(
        #[trigger] ledger.positions[i],
        later.positions[i],
    ) by {}
}

/// What has come of a ledger that has come of another has come of the
/// other.
pub proof fn lemma_becomes_chains(first: Ledger, second: Ledger, third: Ledger)
    requires
        first.becomes(second),
        second.becomes(third),
    ensures
        first.becomes(third),
{
    assert forall|id: MarketId| #[trigger] first.markets.contains_key(id) implies
        third.markets.contains_key(id) && market_becomes(first.markets[id], third.markets[id]) by {
        assert(second.markets.contains_key(id));
    }
    assert forall|i: int| 0 <= i < first.positions.len() implies position_becomes(
        #[trigger] first.positions[i],
        third.positions[i],
    ) by {
        assert(position_becomes(first.positions[i], second.positions[i]));
        assert(position_becomes(second.positions[i], third.positions[i]));
    }
}

/// The life of the records, over every history.
pub proof fn lemma_history_moves_forward(ledger: Ledger, history: Seq<Call>)
    ensures
        ledger.becomes(ledger.after_all(history)),
    decreases history.len(),
{
    if history.len() > 0 {
        let before = ledger.after_all(history.drop_last());
        lemma_history_moves_forward(ledger, history.drop_last());
        lemma_call_moves_forward(before, history.last());
        lemma_becomes_chains(ledger, before, before.after(history.last()));
    }
}

} // verus!
