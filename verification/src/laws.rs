//! What holds of the engine over every history of calls.

use vstd::prelude::*;
use crate::error::{EngineError, ErrorKind};
use crate::gate::{TransferFailed, TransferRequest};
use crate::history::{
    lemma_call_moves_forward,
    lemma_history_moves_forward,
    lemma_history_splits,
    Call,
};
use crate::identity::{Identity, MarketId, PositionId};
use crate::market::{Market, MarketState, Side};
use crate::model::Ledger;
use crate::position::Position;

verus! {

/// What the accepted stakes of `history` have put on `side` of the market
/// `market_id`: the sum of their amounts.
pub open spec fn entered(ledger: Ledger, history: Seq<Call>, market_id: MarketId, side: Side) -> nat
    decreases history.len(),
{
    if history.len() == 0 {
        0
    } else {
        let before = ledger.after_all(history.drop_last());
        entered(ledger, history.drop_last(), market_id, side) + match history.last() {
            Call::Enter { market_id: on, side: taken, amount, .. } => if on == market_id && taken
                == side && before.accepts(history.last()) {
                amount as nat
            } else {
                0
            },
            _ => 0,
        }
    }
}

/// How many calls of `history` have resolved the market `market_id`.
pub open spec fn resolutions(ledger: Ledger, history: Seq<Call>, market_id: MarketId) -> nat
    decreases history.len(),
{
    if history.len() == 0 {
        0
    } else {
        let before = ledger.after_all(history.drop_last());
        resolutions(ledger, history.drop_last(), market_id) + match history.last() {
            Call::Resolve { market_id: on, .. } => if on == market_id && before.accepts(
                history.last(),
            ) {
                1nat
            } else {
                0
            },
            _ => 0,
        }
    }
}

/// How many calls of `history` have paid out the position `position_id`.
pub open spec fn claims(ledger: Ledger, history: Seq<Call>, position_id: PositionId) -> nat
    decreases history.len(),
{
    if history.len() == 0 {
        0
    } else {
        let before = ledger.after_all(history.drop_last());
        claims(ledger, history.drop_last(), position_id) + match history.last() {
            Call::Claim { position_id: of, .. } => if of == position_id && before.accepts(
                history.last(),
            ) {
                1nat
            } else {
                0
            },
            _ => 0,
        }
    }
}

/// No stake is lost and none is counted twice: after any history, each
/// pool of a market holds what it held before and the amounts of the
/// stakes on it that were accepted, and both pools together hold what they
/// held before and the amounts of all accepted stakes on the market.
pub proof fn lemma_pools_hold_accepted_stakes(
    ledger: Ledger,
    history: Seq<Call>,
    market_id: MarketId,
    side: Side,
)
    ensures
        ledger.after_all(history).pool(market_id, side) == ledger.pool(market_id, side) + entered(
            ledger,
            history,
            market_id,
            side,
        ),
        ledger.after_all(history).pool(market_id, Side::Yes) + ledger.after_all(history).pool(
            market_id,
            Side::No,
        ) == ledger.pool(market_id, Side::Yes) + ledger.pool(market_id, Side::No) + entered(
            ledger,
            history,
            market_id,
            Side::Yes,
        ) + entered(ledger, history, market_id, Side::No),
    decreases history.len(),
{
    if history.len() > 0 {
        lemma_pools_hold_accepted_stakes(ledger, history.drop_last(), market_id, side);
        lemma_pools_hold_accepted_stakes(ledger, history.drop_last(), market_id, side.other());
    }
}

/// When a stake is taken: exactly where the market is stored and open, the
/// amount is not zero, the pool of the side can hold it within 64 bits,
/// and the transfer went through. Each of these failing gives its own
/// refusal, the first that fails in this order; the pool of the other side
/// plays no part.
pub proof fn lemma_stake_taken_iff(
    ledger: Ledger,
    market_id: MarketId,
    holder: Identity,
    side: Side,
    amount: u64,
    transfer: Result<(), TransferFailed>,
)
    ensures
        ({
            let result = ledger.enter_result(market_id, holder, side, amount, transfer);
            let stored = ledger.markets.contains_key(market_id);
            let open = ledger.markets[market_id].state == MarketState::Open;
            let fits = ledger.markets[market_id].pool(side) + amount <= u64::MAX;
            &&& result is Ok <==> stored && open && amount > 0 && fits && transfer is Ok
            &&& result == Err::<Position, EngineError>(EngineError::MarketNotFound) <==> !stored
            &&& result == Err::<Position, EngineError>(EngineError::MarketResolved) <==> stored
                && !open
            &&& result == Err::<Position, EngineError>(EngineError::InvalidAmount) <==> stored
                && open && amount == 0
            &&& result == Err::<Position, EngineError>(EngineError::Overflow) <==> stored && open
                && amount > 0 && !fits
            &&& result == Err::<Position, EngineError>(EngineError::TransferFailed) <==> stored
                && open && amount > 0 && fits && transfer is Err
            &&& result is Ok ==> ledger.after_enter(
                market_id,
                holder,
                side,
                amount,
                transfer,
            ).pool(market_id, side) == ledger.pool(market_id, side) + amount
            &&& ledger.after_enter(market_id, holder, side, amount, transfer).pool(
                market_id,
                side.other(),
            ) == ledger.pool(market_id, side.other())
        }),
{
}

/// Stakes on different pools do not stand in each other's way: whether a
/// stake is taken, and why not, is the same before and after a stake on
/// another market or on the other side, and the two stakes leave the same
/// markets behind in either order.
pub proof fn lemma_stakes_on_different_pools_commute(
    ledger: Ledger,
    first_market: MarketId,
    first_holder: Identity,
    first_side: Side,
    first_amount: u64,
    first_transfer: Result<(), TransferFailed>,
    second_market: MarketId,
    second_holder: Identity,
    second_side: Side,
    second_amount: u64,
    second_transfer: Result<(), TransferFailed>,
)
    requires
        first_market != second_market || first_side != second_side,
    ensures
        ({
            let after_first = ledger.after_enter(
                first_market,
                first_holder,
                first_side,
                first_amount,
                first_transfer,
            );
            let after_second = ledger.after_enter(
                second_market,
                second_holder,
                second_side,
                second_amount,
                second_transfer,
            );
            &&& after_first.enter_plan(second_market, second_holder, second_side, second_amount)
                == ledger.enter_plan(second_market, second_holder, second_side, second_amount)
            &&& after_second.enter_plan(first_market, first_holder, first_side, first_amount)
                == ledger.enter_plan(first_market, first_holder, first_side, first_amount)
            &&& after_first.after_enter(
                second_market,
                second_holder,
                second_side,
                second_amount,
                second_transfer,
            ).markets == after_second.after_enter(
                first_market,
                first_holder,
                first_side,
                first_amount,
                first_transfer,
            ).markets
        }),
{
    let after_first = ledger.after_enter(
        first_market,
        first_holder,
        first_side,
        first_amount,
        first_transfer,
    );
    let after_second = ledger.after_enter(
        second_market,
        second_holder,
        second_side,
        second_amount,
        second_transfer,
    );
    assert(after_first.after_enter(
        second_market,
        second_holder,
        second_side,
        second_amount,
        second_transfer,
    ).markets =~= after_second.after_enter(
        first_market,
        first_holder,
        first_side,
        first_amount,
        first_transfer,
    ).markets);
}

/// A stake on yes and a stake on no of one open market, each fitting its
/// own pool, are both taken in either order, and either order ends in the
/// same pools: each pool with its stake added.
pub proof fn lemma_opposite_stakes_both_taken(
    ledger: Ledger,
    market_id: MarketId,
    yes_holder: Identity,
    yes_amount: u64,
    no_holder: Identity,
    no_amount: u64,
)
    requires
        ledger.markets.contains_key(market_id),
        ledger.markets[market_id].state == MarketState::Open,
        yes_amount > 0,
        no_amount > 0,
        ledger.markets[market_id].yes_pool + yes_amount <= u64::MAX,
        ledger.markets[market_id].no_pool + no_amount <= u64::MAX,
    ensures
        ({
            let yes_first = ledger.after_enter(
                market_id,
                yes_holder,
                Side::Yes,
                yes_amount,
                Ok(()),
            );
            let no_first = ledger.after_enter(market_id, no_holder, Side::No, no_amount, Ok(()));
            let yes_then_no = yes_first.after_enter(
                market_id,
                no_holder,
                Side::No,
                no_amount,
                Ok(()),
            );
            let no_then_yes = no_first.after_enter(
                market_id,
                yes_holder,
                Side::Yes,
                yes_amount,
                Ok(()),
            );
            &&& ledger.enter_result(market_id, yes_holder, Side::Yes, yes_amount, Ok(())) is Ok
            &&& yes_first.enter_result(market_id, no_holder, Side::No, no_amount, Ok(())) is Ok
            &&& ledger.enter_result(market_id, no_holder, Side::No, no_amount, Ok(())) is Ok
            &&& no_first.enter_result(market_id, yes_holder, Side::Yes, yes_amount, Ok(())) is Ok
            &&& yes_then_no.markets[market_id] == no_then_yes.markets[market_id]
            &&& yes_then_no.markets[market_id].yes_pool == ledger.markets[market_id].yes_pool
                + yes_amount
            &&& yes_then_no.markets[market_id].no_pool == ledger.markets[market_id].no_pool
                + no_amount
        }),
{
}

/// A market is resolved at most once: the calls of a history that resolve
/// it are one, where the history finds it unresolved and leaves it
/// resolved, and none otherwise.
pub proof fn lemma_resolved_at_most_once(ledger: Ledger, history: Seq<Call>, market_id: MarketId)
    ensures
        resolutions(ledger, history, market_id) == (if ledger.after_all(history).is_resolved(
            market_id,
        ) && !ledger.is_resolved(market_id) {
            1nat
        } else {
            0
        }),
        resolutions(ledger, history, market_id) <= 1,
    decreases history.len(),
{
    if history.len() > 0 {
        let before = ledger.after_all(history.drop_last());
        lemma_resolved_at_most_once(ledger, history.drop_last(), market_id);
        lemma_history_moves_forward(ledger, history.drop_last());
        lemma_call_moves_forward(before, history.last());
    }
}

/// A market is resolved exactly once where its admin tries at all: if a
/// history holds a call by which the admin of an unresolved market
/// resolves it, then one call of the history resolves the market, however
/// many try.
pub proof fn lemma_resolved_exactly_once(
    ledger: Ledger,
    history: Seq<Call>,
    market_id: MarketId,
    at: int,
)
    requires
        ledger.markets.contains_key(market_id),
        !ledger.is_resolved(market_id),
        0 <= at < history.len(),
        (history[at] matches Call::Resolve { market_id: on, caller, .. } && on == market_id
            && caller == ledger.markets[market_id].admin),
    ensures
        ledger.after_all(history).is_resolved(market_id),
        resolutions(ledger, history, market_id) == 1,
{
    let before = ledger.after_all(history.take(at));
    let upto = history.take(at + 1);
    lemma_history_moves_forward(ledger, history.take(at));
    assert(upto.drop_last() =~= history.take(at));
    assert(upto.last() == history[at]);
    assert(ledger.after_all(upto) == before.after(history[at]));
    assert(ledger.after_all(upto).is_resolved(market_id));
    lemma_history_splits(ledger, history, at + 1);
    lemma_history_moves_forward(ledger.after_all(upto), history.skip(at + 1));
    lemma_resolved_at_most_once(ledger, history, market_id);
}

/// Once a market is resolved it stays as it is, whatever is called: its
/// pools and its outcome do not change, and every further call to resolve
/// it is refused, with `AlreadyResolved` where the admin calls and with
/// `Unauthorized` where another does.
pub proof fn lemma_resolution_is_final(
    ledger: Ledger,
    history: Seq<Call>,
    market_id: MarketId,
    caller: Identity,
    outcome: Side,
)
    requires
        ledger.is_resolved(market_id),
    ensures
        ledger.after_all(history).market(market_id) == ledger.market(market_id),
        ledger.after_all(history).resolve_result(market_id, caller, outcome) is Err,
        caller == ledger.markets[market_id].admin ==> ledger.after_all(history).resolve_result(
            market_id,
            caller,
            outcome,
        ) == Err::<Market, EngineError>(EngineError::AlreadyResolved),
        caller != ledger.markets[market_id].admin ==> ledger.after_all(history).resolve_result(
            market_id,
            caller,
            outcome,
        ) == Err::<Market, EngineError>(EngineError::Unauthorized),
        EngineError::AlreadyResolved.class() == ErrorKind::Conflict,
        resolutions(ledger, history, market_id) == 0,
{
    lemma_history_moves_forward(ledger, history);
    lemma_resolved_at_most_once(ledger, history, market_id);
}

/// A position is paid out at most once: the calls of a history that pay it
/// out are one, where the history finds it unclaimed and leaves it
/// claimed, and none otherwise.
pub proof fn lemma_claimed_at_most_once(ledger: Ledger, history: Seq<Call>, position_id: PositionId)
    ensures
        claims(ledger, history, position_id) == (if ledger.after_all(history).is_claimed(
            position_id,
        ) && !ledger.is_claimed(position_id) {
            1nat
        } else {
            0
        }),
        claims(ledger, history, position_id) <= 1,
    decreases history.len(),
{
    if history.len() > 0 {
        let before = ledger.after_all(history.drop_last());
        lemma_claimed_at_most_once(ledger, history.drop_last(), position_id);
        lemma_history_moves_forward(ledger, history.drop_last());
        lemma_call_moves_forward(before, history.last());
    }
}

/// Once a position is claimed, every further claim of it is refused,
/// whatever has been called since, and no transfer is named for it: under
/// the market of the position with `AlreadyClaimed`, under any other
/// market for another reason.
pub proof fn lemma_claim_is_final(
    ledger: Ledger,
    history: Seq<Call>,
    market_id: MarketId,
    position_id: PositionId,
    transfer: Result<(), TransferFailed>,
)
    requires
        ledger.wf(),
        ledger.is_claimed(position_id),
    ensures
        ledger.after_all(history).claim_result(market_id, position_id, transfer) is Err,
        ledger.after_all(history).claim_plan(market_id, position_id) is Err,
        ledger.after_all(history).after_claim(market_id, position_id, transfer)
            == ledger.after_all(history),
        market_id == ledger.positions[position_id as int].market_id ==> ({
            &&& ledger.after_all(history).claim_result(market_id, position_id, transfer) == Err::<
                u64,
                EngineError,
            >(EngineError::AlreadyClaimed)
            &&& ledger.after_all(history).claim_plan(market_id, position_id) == Err::<
                TransferRequest,
                EngineError,
            >(EngineError::AlreadyClaimed)
        }),
        EngineError::AlreadyClaimed.class() == ErrorKind::Conflict,
        claims(ledger, history, position_id) == 0,
{
    lemma_history_moves_forward(ledger, history);
    lemma_claimed_at_most_once(ledger, history, position_id);
    assert(ledger.position_consistent(position_id as int));
    let later = ledger.after_all(history);
    assert(later.positions[position_id as int] == ledger.positions[position_id as int]);
}

/// A stake of nothing is always refused and changes nothing. On a market
/// that is stored and open the reason is `InvalidAmount`; else it is that
/// the market is not stored, or not open.
pub proof fn lemma_empty_stake_refused(
    ledger: Ledger,
    market_id: MarketId,
    holder: Identity,
    side: Side,
    transfer: Result<(), TransferFailed>,
)
    ensures
        ledger.enter_result(market_id, holder, side, 0, transfer) is Err,
        ledger.enter_plan(market_id, holder, side, 0) is Err,
        ledger.after_enter(market_id, holder, side, 0, transfer) == ledger,
        ledger.markets.contains_key(market_id) && !ledger.is_resolved(market_id) ==> ({
            &&& ledger.enter_result(market_id, holder, side, 0, transfer) == Err::<
                Position,
                EngineError,
            >(EngineError::InvalidAmount)
            &&& ledger.enter_plan(market_id, holder, side, 0) == Err::<
                TransferRequest,
                EngineError,
            >(EngineError::InvalidAmount)
        }),
        EngineError::InvalidAmount.class() == ErrorKind::InvalidInput,
{
}

/// A resolved market takes no stake, whatever has been called since it was
/// resolved: every stake on it is refused with `MarketResolved`, no
/// transfer is named for it, and nothing changes.
pub proof fn lemma_resolved_market_takes_no_stake(
    ledger: Ledger,
    history: Seq<Call>,
    market_id: MarketId,
    holder: Identity,
    side: Side,
    amount: u64,
    transfer: Result<(), TransferFailed>,
)
    requires
        ledger.is_resolved(market_id),
    ensures
        ledger.after_all(history).enter_result(market_id, holder, side, amount, transfer) == Err::<
            Position,
            EngineError,
        >(EngineError::MarketResolved),
        ledger.after_all(history).enter_plan(market_id, holder, side, amount) == Err::<
            TransferRequest,
            EngineError,
        >(EngineError::MarketResolved),
        ledger.after_all(history).after_enter(market_id, holder, side, amount, transfer)
            == ledger.after_all(history),
        ledger.after_all(history).pool(market_id, side) == ledger.pool(market_id, side),
        EngineError::MarketResolved.class() == ErrorKind::Conflict,
{
    lemma_history_moves_forward(ledger, history);
}

/// The operation follows the plan: a stake is taken where `plan_enter`
/// names a transfer for it and the transfer went through; where the plan
/// refuses, the stake is refused for the same reason.
pub proof fn lemma_enter_follows_plan(
    ledger: Ledger,
    market_id: MarketId,
    holder: Identity,
    side: Side,
    amount: u64,
    transfer: Result<(), TransferFailed>,
)
    ensures
        ledger.enter_result(market_id, holder, side, amount, transfer) is Ok <==> ledger.enter_plan(
            market_id,
            holder,
            side,
            amount,
        ) is Ok && transfer is Ok,
        ledger.enter_plan(market_id, holder, side, amount) is Ok ==> ledger.enter_plan(
            market_id,
            holder,
            side,
            amount,
        )->Ok_0 == TransferRequest::deposit(market_id, holder, amount),
        ledger.enter_plan(market_id, holder, side, amount) matches Err(error)
            ==> ledger.enter_result(market_id, holder, side, amount, transfer) == Err::<
            Position,
            EngineError,
        >(error),
{
}

/// The operation follows the plan: a position is paid out where
/// `plan_claim` names a transfer for it and the transfer went through, and
/// it is paid the amount of that transfer; where the plan refuses, the
/// claim is refused for the same reason.
pub proof fn lemma_claim_follows_plan(
    ledger: Ledger,
    market_id: MarketId,
    position_id: PositionId,
    transfer: Result<(), TransferFailed>,
)
    ensures
        ledger.claim_result(market_id, position_id, transfer) is Ok <==> ledger.claim_plan(
            market_id,
            position_id,
        ) is Ok && transfer is Ok,
        ledger.claim_result(market_id, position_id, transfer) matches Ok(amount)
            ==> ledger.claim_plan(market_id, position_id)->Ok_0 == TransferRequest::withdrawal(
            market_id,
            ledger.positions[position_id as int].holder,
            amount,
        ),
        ledger.claim_plan(market_id, position_id) matches Err(error) ==> ledger.claim_result(
            market_id,
            position_id,
            transfer,
        ) == Err::<u64, EngineError>(error),
{
}

/// Every refusal leaves the ledger as it was.
pub proof fn lemma_refusal_changes_nothing(ledger: Ledger, call: Call)
    requires
        !ledger.accepts(call),
    ensures
        ledger.after(call) == ledger,
{
}

/// A transfer that failed changes nothing: the stake or the claim that it
/// was to back is refused with `TransferFailed`, unless it is refused for
/// a reason of its own.
pub proof fn lemma_failed_transfer_changes_nothing(ledger: Ledger, call: Call)
    requires
        (match call {
            Call::Enter { transfer, .. } => transfer is Err,
            Call::Claim { transfer, .. } => transfer is Err,
            _ => false,
        }),
    ensures
        !ledger.accepts(call),
        ledger.after(call) == ledger,
{
}

} // verus!
