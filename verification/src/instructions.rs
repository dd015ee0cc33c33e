//! The instructions that a host hands to the engine: creating a market for
//! an asset, and staking on one of its sides.
//!
//! Each instruction names the parties it concerns in a small record, as the
//! host has established them, and is carried out by one operation of the
//! engine.

use vstd::prelude::*;
use crate::engine::MarketEngine;
use crate::error::EngineError;
use crate::gate::TransferFailed;
use crate::identity::{Identity, MarketId};
use crate::market::{Market, Side};
use crate::position::Position;

verus! {

/// The party to the creation of a market.
#[derive(Clone, Copy, Debug, PartialEq, Eq)]
pub struct InitializeMarket {
    /// Who creates the market, and alone may resolve it.
    pub admin: Identity,
}

/// The parties to a stake.
#[derive(Clone, Copy, Debug, PartialEq, Eq)]
pub struct EnterSide {
    /// The market that the stake is placed on. Its escrow receives the
    /// amount.
    pub market: MarketId,
    /// Who stakes, and pays the amount.
    pub user: Identity,
}

/// Creates the market for `asset`, open and with empty pools, under the
/// admin that `accounts` names.
///
/// Refused with `AlreadyExists` where the ledger holds a market for
/// `asset`; then nothing is changed.
pub fn initialize_market(
    engine: &mut MarketEngine,
    accounts: &InitializeMarket,
    asset: [u8; 8],
) -> (result: Result<Market, EngineError>)
    requires
        old(engine)@.wf(),
    ensures
        result == old(engine)@.create_market_result(accounts.admin, (MarketId { asset })),
        final(engine)@ == old(engine)@.after_create_market(accounts.admin, (MarketId { asset })),
        final(engine)@.wf(),
{
    engine.create_market(accounts.admin, MarketId { asset })
}

/// Stakes `lamports` of the user on the yes side of the market, both as
/// `accounts` names them, given the answer of the transfer gate to the
/// transfer from the user into the market's escrow.
///
/// Refused as `MarketEngine::enter` refuses a stake; then nothing is
/// changed.
pub fn enter_yes(
    engine: &mut MarketEngine,
    accounts: &EnterSide,
    lamports: u64,
    transfer: Result<(), TransferFailed>,
) -> (result: Result<Position, EngineError>)
    requires
        old(engine)@.wf(),
    ensures
        result == old(engine)@.enter_result(
            accounts.market,
            accounts.user,
            Side::Yes,
            lamports,
            transfer,
        ),
        final(engine)@ == old(engine)@.after_enter(
            accounts.market,
            accounts.user,
            Side::Yes,
            lamports,
            transfer,
        ),
        final(engine)@.wf(),
{
    engine.enter(accounts.market, accounts.user, Side::Yes, lamports, transfer)
}

/// Stakes `lamports` of the user on the no side of the market, both as
/// `accounts` names them, given the answer of the transfer gate to the
/// transfer from the user into the market's escrow.
///
/// Refused as `MarketEngine::enter` refuses a stake; then nothing is
/// changed.
pub fn enter_no(
    engine: &mut MarketEngine,
    accounts: &EnterSide,
    lamports: u64,
    transfer: Result<(), TransferFailed>,
) -> (result: Result<Position, EngineError>)
    requires
        old(engine)@.wf(),
    ensures
        result == old(engine)@.enter_result(
            accounts.market,
            accounts.user,
            Side::No,
            lamports,
            transfer,
        ),
        final(engine)@ == old(engine)@.after_enter(
            accounts.market,
            accounts.user,
            Side::No,
            lamports,
            transfer,
        ),
        final(engine)@.wf(),
{
    engine.enter(accounts.market, accounts.user, Side::No, lamports, transfer)
}

} // verus!
