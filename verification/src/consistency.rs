//! Proofs that the invariant of the ledger holds of the empty ledger and is
//! kept by each of the four operations.

use vstd::prelude::*;
use crate::gate::TransferFailed;
use crate::identity::{Identity, MarketId, PositionId};
use crate::market::Side;
use crate::model::{staked, Ledger};
use crate::position::Position;

verus! {

/// One more position adds its amount to the pool it stakes on, and to no
/// other.
pub proof fn lemma_staked_push(
    positions: Seq<Position>,
    position: Position,
    market_id: MarketId,
    side: Side,
)
    ensures
        staked(positions.push(position), market_id, side) == staked(positions, market_id, side)
            + (if position.market_id == market_id && position.side == side {
            position.amount as nat
        } else {
            0
        }),
{
    assert(positions.push(position).drop_last() =~= positions);
}

/// Two lists of positions that agree, place by place, on market, side and
/// amount have staked the same.
pub proof fn lemma_staked_alike(a: Seq<Position>, b: Seq<Position>, market_id: MarketId, side: Side)
    requires
        a.len() == b.len(),
        forall|i: int|
            0 <= i < a.len() ==> (#[trigger] a[i]).market_id == b[i].market_id && a[i].side
                == b[i].side && a[i].amount == b[i].amount,
    ensures
        staked(a, market_id, side) == staked(b, market_id, side),
    decreases a.len(),
{
    if a.len() > 0 {
        assert(a.last() == a[a.len() - 1]);
        lemma_staked_alike(a.drop_last(), b.drop_last(), market_id, side);
    }
}

/// Positions of other markets stake nothing on this one.
pub proof fn lemma_staked_elsewhere(positions: Seq<Position>, market_id: MarketId, side: Side)
    requires
        forall|i: int|
            0 <= i < positions.len() ==> (#[trigger] positions[i]).market_id != market_id,
    ensures
        staked(positions, market_id, side) == 0,
    decreases positions.len(),
{
    if positions.len() > 0 {
        assert(positions.last() == positions[positions.len() - 1]);
        lemma_staked_elsewhere(positions.drop_last(), market_id, side);
    }
}

/// A pool is at least as large as each stake in it.
pub proof fn lemma_staked_covers(positions: Seq<Position>, i: int)
    requires
        0 <= i < positions.len(),
    ensures
        positions[i].amount <= staked(positions, positions[i].market_id, positions[i].side),
    decreases positions.len(),
{
    if i < positions.len() - 1 {
        lemma_staked_covers(positions.drop_last(), i);
    }
}

/// The first `n` positions have staked no more than all of them.
pub proof fn lemma_staked_grows(positions: Seq<Position>, n: int, market_id: MarketId, side: Side)
    requires
        0 <= n <= positions.len(),
    ensures
        staked(positions.take(n), market_id, side) <= staked(positions, market_id, side),
    decreases positions.len(),
{
    if n == positions.len() {
        assert(positions.take(n) =~= positions);
    } else {
        assert(positions.drop_last().take(n) =~= positions.take(n));
        lemma_staked_grows(positions.drop_last(), n, market_id, side);
    }
}

/// The empty ledger is consistent.
pub proof fn lemma_empty_wf()
    ensures
        Ledger::empty().wf(),
{
}

/// `create_market` keeps the invariant.
pub proof fn lemma_create_market_keeps_wf(ledger: Ledger, admin: Identity, market_id: MarketId)
    requires
        ledger.wf(),
    ensures
        ledger.after_create_market(admin, market_id).wf(),
{
    let next = ledger.after_create_market(admin, market_id);
    if ledger.create_market_result(admin, market_id) is Ok {
        assert forall|i: int| 0 <= i < ledger.positions.len() implies (
        #[trigger] ledger.positions[i]).market_id != market_id by {
            assert(ledger.position_consistent(i));
        }
        lemma_staked_elsewhere(ledger.positions, market_id, Side::Yes);
        lemma_staked_elsewhere(ledger.positions, market_id, Side::No);
        assert forall|id: MarketId| #[trigger] next.markets.contains_key(id) implies
            next.market_consistent(id) by {
            if id != market_id {
                assert(ledger.markets.contains_key(id));
                assert(ledger.market_consistent(id));
            }
        }
        assert forall|i: int| 0 <= i < next.positions.len() implies
            #[trigger] next.position_consistent(i) by {
            assert(ledger.position_consistent(i));
        }
    }
}

/// `enter` keeps the invariant.
pub proof fn lemma_enter_keeps_wf(
    ledger: Ledger,
    market_id: MarketId,
    holder: Identity,
    side: Side,
    amount: u64,
    transfer: Result<(), TransferFailed>,
)
    requires
        ledger.wf(),
    ensures
        ledger.after_enter(market_id, holder, side, amount, transfer).wf(),
{
    let next = ledger.after_enter(market_id, holder, side, amount, transfer);
    if let Ok(position) = ledger.enter_result(market_id, holder, side, amount, transfer) {
        assert(ledger.market_consistent(market_id));
        assert forall|id: MarketId| #[trigger] next.markets.contains_key(id) implies
            next.market_consistent(id) by {
            lemma_staked_push(ledger.positions, position, id, Side::Yes);
            lemma_staked_push(ledger.positions, position, id, Side::No);
            if id != market_id {
                assert(ledger.markets.contains_key(id));
                assert(ledger.market_consistent(id));
            }
        }
        assert forall|i: int| 0 <= i < next.positions.len() implies
            #[trigger] next.position_consistent(i) by {
            if i < ledger.positions.len() {
                assert(ledger.position_consistent(i));
            }
        }
    }
}

/// `resolve` keeps the invariant.
pub proof fn lemma_resolve_keeps_wf(
    ledger: Ledger,
    market_id: MarketId,
    caller: Identity,
    outcome: Side,
)
    requires
        ledger.wf(),
    ensures
        ledger.after_resolve(market_id, caller, outcome).wf(),
{
    let next = ledger.after_resolve(market_id, caller, outcome);
    if ledger.resolve_result(market_id, caller, outcome) is Ok {
        assert(ledger.market_consistent(market_id));
        assert forall|id: MarketId| #[trigger] next.markets.contains_key(id) implies
            next.market_consistent(id) by {
            if id != market_id {
                assert(ledger.markets.contains_key(id));
                assert(ledger.market_consistent(id));
            }
        }
        assert forall|i: int| 0 <= i < next.positions.len() implies
            #[trigger] next.position_consistent(i) by {
            assert(ledger.position_consistent(i));
        }
    }
}

/// `claim` keeps the invariant.
pub proof fn lemma_claim_keeps_wf(
    ledger: Ledger,
    market_id: MarketId,
    position_id: PositionId,
    transfer: Result<(), TransferFailed>,
)
    requires
        ledger.wf(),
    ensures
        ledger.after_claim(market_id, position_id, transfer).wf(),
{
    let next = ledger.after_claim(market_id, position_id, transfer);
    if ledger.claim_result(market_id, position_id, transfer) is Ok {
        assert forall|id: MarketId| #[trigger] next.markets.contains_key(id) implies
            next.market_consistent(id) by {
            assert(ledger.market_consistent(id));
            lemma_staked_alike(ledger.positions, next.positions, id, Side::Yes);
            lemma_staked_alike(ledger.positions, next.positions, id, Side::No);
        }
        assert forall|i: int| 0 <= i < next.positions.len() implies
            #[trigger] next.position_consistent(i) by {
            assert(ledger.position_consistent(i));
        }
    }
}

} // verus!
