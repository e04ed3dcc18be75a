//! Accounting core of a binary-outcome prediction market.
//!
//! The library is a serialized state machine over a market ledger: it creates
//! markets, records trades as outcome-share positions, and resolves markets to
//! a final outcome. Every operation either takes effect in full or leaves the
//! ledger untouched, and the ledger invariants (volume conservation and the
//! agreement between per-owner positions and market aggregates) are proved to
//! hold after every operation.

use vstd::prelude::*;

pub mod laws;
pub mod ledger;
pub mod state;

pub use ledger::MarketLedger;
pub use state::Market;
pub use state::UserPosition;

verus! {

/// One of the two resolvable outcomes of a market.
#[derive(Debug, Clone, Copy, PartialEq, Eq, Structural)]
pub enum MarketOutcome {
    Yes,
    No,
}

/// Lifecycle status of a market.
///
/// `Open` accepts trades; `Resolved` and `Cancelled` are terminal. No
/// operation currently drives a market into `Cancelled`; the variant is
/// reserved.
#[derive(Debug, Clone, Copy, PartialEq, Eq, Structural)]
pub enum MarketStatus {
    Open,
    Resolved(MarketOutcome),
    Cancelled,
}

/// Rejection reasons. Every error aborts the enclosing operation in full:
/// no partial state change is ever visible.
#[derive(Debug, Clone, Copy, PartialEq, Eq, Structural)]
pub enum MarketError {
    MarketNotFound,
    MarketNotOpen,
    MarketAlreadyResolved,
    InvalidTimestamp,
    InvalidShareAmount,
}

/// The identity of the caller and the current time, supplied by the host
/// for each operation.
pub struct CallContext {
    pub caller: String,
    pub timestamp: u64,
}

/// The mutating operation surface. A caller submits one operation at a time;
/// each returns no payload beyond success or an explicit rejection.
pub enum Operation {
    CreateMarket {
        question: String,
        description: String,
        category: String,
        resolution_criteria: String,
        end_timestamp: u64,
    },
    PlaceTrade {
        market_id: u64,
        outcome: MarketOutcome,
        shares: u64,
    },
    ResolveMarket {
        market_id: u64,
        outcome: MarketOutcome,
        oracle_data: String,
    },
}

} // verus!
