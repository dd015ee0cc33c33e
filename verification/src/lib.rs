//! A binary-outcome prediction market: stakes pooled per side, a single
//! resolution per market, and proportional payouts in integer arithmetic.
//!
//! Participants stake on the yes or the no side of a market. The admin of
//! the market later names the side that won, once; from then on every stake
//! on that side can be claimed, once, for its part of both pools.
//!
//! - [`market`], [`position`]: the records, and what a stake and a
//!   resolution do to a market.
//! - [`settlement`]: what a position is paid.
//! - [`ledger`]: the store of the records, written by compare-and-set.
//! - [`engine`]: the four operations on the ledger, and what the escrow of a
//!   market retains.
//! - [`gate`], [`identity`]: what passes between the engine and the host's
//!   transfer and authorization gates. The engine moves no value and checks
//!   no signature itself.
//! - [`instructions`]: creating a market and staking, as a host hands them
//!   in.
//! - [`model`], [`history`]: the ledger as a mathematical value, over which
//!   every contract is stated.
//! - [`consistency`], [`solvency`], [`laws`]: what is proved of every ledger
//!   that the engine can reach.

pub mod consistency;
pub mod engine;
pub mod error;
pub mod gate;
pub mod history;
pub mod identity;
pub mod instructions;
pub mod laws;
pub mod ledger;
pub mod market;
pub mod model;
pub mod position;
pub mod settlement;
pub mod solvency;

pub use engine::MarketEngine;
pub use error::{EngineError, ErrorKind};
pub use gate::{Account, TransferFailed, TransferRequest};
pub use identity::{Identity, MarketId, PositionId, VerifiedIdentity};
pub use instructions::{enter_no, enter_yes, initialize_market, EnterSide, InitializeMarket};
pub use ledger::{LedgerStore, StoreError};
pub use market::{Market, MarketState, Side};
pub use position::Position;
pub use settlement::payout;
