//! What the engine asks of the transfer gate, and what it answers.
//!
//! The engine moves no value itself. An operation that needs value moved is
//! made in two steps: the engine checks the request against the ledger and
//! names the transfer; the host performs it and hands the answer of the
//! transfer gate to the engine, which then changes the ledger or leaves it
//! as it is.

use vstd::prelude::*;
use crate::identity::{Identity, MarketId};

verus! {

/// One end of a transfer.
#[derive(Clone, Copy, Debug, PartialEq, Eq)]
pub enum Account {
    /// The funds of a participant.
    Holder(Identity),
    /// The escrow that backs the two pools of a market.
    Escrow(MarketId),
}

/// A transfer that the host is to perform through the transfer gate.
#[derive(Clone, Copy, Debug, PartialEq, Eq)]
pub struct TransferRequest {
    pub from: Account,
    pub to: Account,
    pub amount: u64,
}

/// The answer of a transfer gate that did not move the value.
#[derive(Clone, Copy, Debug, PartialEq, Eq, Structural)]
pub struct TransferFailed;

impl TransferRequest {
    /// The transfer that backs a stake: from the holder into the market's
    /// escrow.
    pub open spec fn deposit(
        market_id: MarketId,
        holder: Identity,
        amount: u64,
    ) -> TransferRequest {
        TransferRequest { from: Account::Holder(holder), to: Account::Escrow(market_id), amount }
    }

    /// The transfer that pays a position out: from the market's escrow to
    /// the holder.
    pub open spec fn withdrawal(
        market_id: MarketId,
        holder: Identity,
        amount: u64,
    ) -> TransferRequest {
        TransferRequest { from: Account::Escrow(market_id), to: Account::Holder(holder), amount }
    }
}

} // verus!
