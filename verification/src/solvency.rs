//! Proofs that a market never pays out more than was staked on it: what
//! rounding and the 64-bit cap of a payout leave over stays in escrow, and
//! the escrow never runs dry.

use vstd::prelude::*;
use crate::consistency::{lemma_staked_covers, lemma_staked_grows};
use crate::identity::{MarketId, PositionId};
use crate::market::{Market, Side};
use crate::model::{paid, staked, Ledger};
use crate::position::Position;
use crate::settlement::{lemma_share_rounds_down, lemma_share_within_pools, payable, payout_of};

verus! {

/// A position of a consistent ledger is owed no more than both pools of
/// its market hold. Where the two pools together are within the 64-bit
/// bound, what a claim pays is therefore what the position is owed, in
/// full.
pub proof fn lemma_payout_within_pools(ledger: Ledger, position_id: PositionId)
    requires
        ledger.wf(),
        position_id < ledger.positions.len(),
    ensures
        payout_of(
            ledger.positions[position_id as int],
            ledger.markets[ledger.positions[position_id as int].market_id],
        ) <= ledger.markets[ledger.positions[position_id as int].market_id].total(),
        ledger.markets[ledger.positions[position_id as int].market_id].total() <= u64::MAX
            ==> ledger.claim_amount(ledger.positions[position_id as int].market_id, position_id)
            == payout_of(
            ledger.positions[position_id as int],
            ledger.markets[ledger.positions[position_id as int].market_id],
        ),
{
    let position = ledger.positions[position_id as int];
    let market = ledger.markets[position.market_id];
    assert(ledger.position_consistent(position_id as int));
    assert(ledger.market_consistent(position.market_id));
    lemma_staked_covers(ledger.positions, position_id as int);
    match market.outcome() {
        Some(outcome) => {
            if position.side == outcome {
                lemma_share_within_pools(
                    position.amount as nat,
                    market.pool(outcome) as nat,
                    market.pool(outcome.other()) as nat,
                );
            }
        },
        None => {},
    }
}

/// While a market is open, and where nothing was staked on the side that
/// won, nothing is paid out.
pub proof fn lemma_paid_nothing(positions: Seq<Position>, market: Market)
    requires
        market.outcome() matches Some(outcome) ==> market.pool(outcome) == 0,
    ensures
        paid(positions, market) == 0,
    decreases positions.len(),
{
    if positions.len() > 0 {
        lemma_paid_nothing(positions.drop_last(), market);
    }
}

/// What has been paid out, times the winning pool, is no more than what
/// the positions staked on the winning side, times both pools.
pub proof fn lemma_paid_rounds_down(positions: Seq<Position>, market: Market, outcome: Side)
    requires
        market.outcome() == Some(outcome),
    ensures
        paid(positions, market) * market.pool(outcome) <= staked(positions, market.id, outcome)
            * market.total(),
    decreases positions.len(),
{
    let pool = market.pool(outcome) as int;
    let total = market.total();
    if positions.len() > 0 {
        let last = positions.last();
        let paid_before = paid(positions.drop_last(), market) as int;
        let staked_before = staked(positions.drop_last(), market.id, outcome) as int;
        lemma_paid_rounds_down(positions.drop_last(), market, outcome);
        if last.market_id == market.id && last.side == outcome {
            let amount = last.amount as int;
            let owed = payout_of(last, market) as int;
            let given = payable(last, market) as int;
            assert(total == market.pool(outcome) + market.pool(outcome.other()));
            lemma_share_rounds_down(
                last.amount as nat,
                market.pool(outcome) as nat,
                market.pool(outcome.other()) as nat,
            );
            assert(owed * pool <= amount * total);
            assert((paid_before + given) * pool <= (staked_before + amount) * total)
                by (nonlinear_arith)
                requires
                    paid_before * pool <= staked_before * total,
                    owed * pool <= amount * total,
                    0 <= given <= owed,
                    pool >= 0,
            ;
            assert(paid_before * pool <= (staked_before + amount) * total) by (nonlinear_arith)
                requires
                    paid_before * pool <= staked_before * total,
                    amount >= 0,
                    total >= 0,
            ;
        }
    } else {
        assert(0 * pool <= 0 * total) by (nonlinear_arith);
    }
}

/// Positions that staked no more on the winning side than its pool holds
/// are paid no more than both pools hold.
pub proof fn lemma_paid_within_pools(positions: Seq<Position>, market: Market)
    requires
        market.outcome() matches Some(outcome) ==> staked(positions, market.id, outcome)
            <= market.pool(outcome),
    ensures
        paid(positions, market) <= market.total(),
{
    match market.outcome() {
        Some(outcome) => {
            let pool = market.pool(outcome) as int;
            if pool == 0 {
                lemma_paid_nothing(positions, market);
            } else {
                lemma_paid_rounds_down(positions, market, outcome);
                let paid_out = paid(positions, market) as int;
                let stakes = staked(positions, market.id, outcome) as int;
                let total = market.total();
                assert(paid_out <= total) by (nonlinear_arith)
                    requires
                        paid_out * pool <= stakes * total,
                        stakes <= pool,
                        pool > 0,
                        total >= 0,
                        paid_out >= 0,
                ;
            }
        },
        None => {
            lemma_paid_nothing(positions, market);
        },
    }
}

/// In a consistent ledger the first `n` positions have been paid no more
/// than both pools of the market hold.
pub proof fn lemma_paid_so_far(ledger: Ledger, market_id: MarketId, n: int)
    requires
        ledger.wf(),
        ledger.markets.contains_key(market_id),
        0 <= n <= ledger.positions.len(),
    ensures
        paid(ledger.positions.take(n), ledger.markets[market_id])
            <= ledger.markets[market_id].total(),
{
    let market = ledger.markets[market_id];
    assert(ledger.market_consistent(market_id));
    lemma_staked_grows(ledger.positions, n, market_id, Side::Yes);
    lemma_staked_grows(ledger.positions, n, market_id, Side::No);
    lemma_paid_within_pools(ledger.positions.take(n), market);
}

/// Solvency: in a consistent ledger no market has paid out more than both
/// its pools hold. What its escrow retains is not negative, and is no more
/// than the two pools, each a 64-bit amount.
pub proof fn lemma_solvent(ledger: Ledger, market_id: MarketId)
    requires
        ledger.wf(),
        ledger.markets.contains_key(market_id),
    ensures
        0 <= ledger.retained(market_id) <= ledger.markets[market_id].total() <= 2 * u64::MAX,
{
    lemma_paid_so_far(ledger, market_id, ledger.positions.len() as int);
    assert(ledger.positions.take(ledger.positions.len() as int) =~= ledger.positions);
}

} // verus!
