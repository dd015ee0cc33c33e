//! The settlement calculator: what a position is paid once its market is
//! resolved.
//!
//! A winning stake is owed its proportional part of both pools, rounded
//! down; a losing stake is owed nothing. A payout is one 64-bit amount:
//! where both pools together pass the 64-bit bound, a stake can be owed
//! more than that, and is paid `u64::MAX`. What rounding and the cap leave
//! over stays in escrow (see `MarketEngine::retained`).

use vstd::prelude::*;
use vstd::arithmetic::div_mod::{
    lemma_div_is_ordered,
    lemma_div_multiples_vanish,
    lemma_div_pos_is_pos,
    lemma_hoist_over_denominator,
    lemma_remainder_lower,
};
use vstd::arithmetic::mul::{
    lemma_mul_inequality,
    lemma_mul_is_commutative,
    lemma_mul_is_distributive_add,
    lemma_mul_nonnegative,
    lemma_mul_upper_bound,
};
use crate::market::Market;
use crate::position::Position;

verus! {

/// The part of both pools that falls to a winning stake of `amount`:
/// `amount * (winning_pool + losing_pool) / winning_pool`, rounded down.
/// Where nothing was staked on the winning side, nothing is paid.
pub open spec fn share(amount: nat, winning_pool: nat, losing_pool: nat) -> nat {
    if winning_pool == 0 {
        0
    } else {
        (amount * (winning_pool + losing_pool)) / winning_pool
    }
}

/// What `position` is owed by `market`: its share where the market is
/// resolved to the side of the position, else nothing. This is the amount
/// in full, which may pass the 64-bit bound.
pub open spec fn payout_of(position: Position, market: Market) -> nat {
    match market.outcome() {
        None => 0,
        Some(outcome) => if position.side == outcome {
            share(
                position.amount as nat,
                market.pool(outcome) as nat,
                market.pool(outcome.other()) as nat,
            )
        } else {
            0
        },
    }
}

/// What `position` is paid by `market`: what it is owed, but no more than
/// one 64-bit amount holds.
pub open spec fn payable(position: Position, market: Market) -> u64 {
    if payout_of(position, market) <= u64::MAX {
        payout_of(position, market) as u64
    } else {
        u64::MAX
    }
}

/// A share is the stake itself and, on top of it, the stake's part of the
/// losing pool.
pub proof fn lemma_share_splits(amount: nat, winning_pool: nat, losing_pool: nat)
    requires
        winning_pool > 0,
    ensures
        share(amount, winning_pool, losing_pool) == amount + (amount * losing_pool) / winning_pool,
        share(amount, winning_pool, losing_pool) >= amount,
{
    let w = winning_pool as int;
    let l = losing_pool as int;
    let a = amount as int;
    lemma_mul_is_distributive_add(a, w, l);
    lemma_mul_is_commutative(a, l);
    lemma_mul_nonnegative(a, l);
    lemma_hoist_over_denominator(a * l, a, winning_pool);
    lemma_div_pos_is_pos(a * l, w);
    assert(a * (w + l) == a * l + a * w);
}

/// A stake that is part of the winning pool is paid no more than both pools
/// hold.
pub proof fn lemma_share_within_pools(amount: nat, winning_pool: nat, losing_pool: nat)
    requires
        amount <= winning_pool,
    ensures
        share(amount, winning_pool, losing_pool) <= winning_pool + losing_pool,
{
    if winning_pool > 0 {
        let w = winning_pool as int;
        let t = (winning_pool + losing_pool) as int;
        lemma_mul_inequality(amount as int, w, t);
        lemma_div_is_ordered(amount as int * t, w * t, w);
        lemma_div_multiples_vanish(t, w);
    }
}

/// A stake that is the whole winning pool is paid both pools.
pub proof fn lemma_sole_winner_takes_all(winning_pool: nat, losing_pool: nat)
    requires
        winning_pool > 0,
    ensures
        share(winning_pool, winning_pool, losing_pool) == winning_pool + losing_pool,
{
    lemma_div_multiples_vanish((winning_pool + losing_pool) as int, winning_pool as int);
}

/// Rounding is downwards: a share times the winning pool is no more than
/// the stake times both pools.
pub proof fn lemma_share_rounds_down(amount: nat, winning_pool: nat, losing_pool: nat)
    ensures
        share(amount, winning_pool, losing_pool) * winning_pool <= amount * (winning_pool
            + losing_pool),
{
    if winning_pool > 0 {
        lemma_mul_nonnegative(amount as int, (winning_pool + losing_pool) as int);
        lemma_remainder_lower(
            amount as int * (winning_pool + losing_pool) as int,
            winning_pool as int,
        );
    } else {
        lemma_mul_nonnegative(amount as int, (winning_pool + losing_pool) as int);
    }
}

/// What `position` is paid by `market`.
///
/// Nothing while the market is open, and nothing for a position on the side
/// that lost. A position on the side that won is paid
/// `amount * (yes_pool + no_pool) / winning_pool`, rounded down, where the
/// product is taken without loss; where the winning pool is empty, nothing.
/// The result is capped at `u64::MAX`. The cap is reached only where both
/// pools together pass the 64-bit bound, or by a stake that is larger than
/// the pool it is to be part of, which no position in the engine's ledger
/// is.
pub fn payout(position: &Position, market: &Market) -> (paid: u64)
    ensures
        paid == payable(*position, *market),
{
    let outcome = match market.winner() {
        Some(outcome) => outcome,
        None => {
            return 0;
        },
    };
    if position.side != outcome {
        return 0;
    }
    let winning_pool = market.pool_of(outcome);
    let losing_pool = market.pool_of(outcome.opposite());
    if winning_pool == 0 {
        return 0;
    }
    proof {
        let product = position.amount as int * losing_pool as int;
        let bound = u64::MAX as int * u64::MAX as int;
        lemma_share_splits(position.amount as nat, winning_pool as nat, losing_pool as nat);
        lemma_mul_upper_bound(
            position.amount as int,
            u64::MAX as int,
            losing_pool as int,
            u64::MAX as int,
        );
        lemma_div_is_ordered(product, bound, winning_pool as int);
        assert(bound / winning_pool as int <= bound) by (nonlinear_arith)
            requires
                winning_pool >= 1,
                bound >= 0,
        ;
        assert(bound + u64::MAX <= u128::MAX) by (nonlinear_arith)
            requires
                bound == u64::MAX as int * u64::MAX as int,
        ;
    }
    let gain: u128 = (position.amount as u128) * (losing_pool as u128) / (winning_pool as u128);
    let exact: u128 = position.amount as u128 + gain;
    if exact > u64::MAX as u128 {
        u64::MAX
    } else {
        exact as u64
    }
}

} // verus!
