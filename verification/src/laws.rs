//! The ledger laws, stated and proved over the mathematical model.
//!
//! Every operation of `MarketLedger` ensures `wf` of the resulting ledger and
//! its exact transition relation, so each law below holds after any sequence
//! of operations started from `MarketLedger::new`.

use vstd::prelude::*;

use crate::ledger::create_transition;
use crate::ledger::op_fits;
use crate::ledger::resolve_transition;
use crate::ledger::step;
use crate::ledger::trade_transition;
use crate::state::LedgerView;
use crate::state::initial_ledger;
use crate::state::key_matches;
use crate::state::lemma_element_le_sum;
use crate::state::lemma_position_index_properties;
use crate::state::position_index;
use crate::state::sum_shares;
use crate::CallContext;
use crate::MarketError;
use crate::MarketOutcome;
use crate::MarketStatus;
use crate::Operation;

verus! {

/// In every well-formed ledger, each market's cumulative volume equals the
/// sum of its two outcome aggregates.
pub proof fn lemma_volume_conservation(s: LedgerView, i: int)
    requires
        s.wf(),
        0 <= i < s.markets.len(),
    ensures
        s.markets[i].total_volume == s.markets[i].yes_shares_outstanding
            + s.markets[i].no_shares_outstanding,
{
}

/// In every well-formed ledger, the per-owner positions of each market sum to
/// the market's outstanding aggregate, for both outcomes.
pub proof fn lemma_share_conservation(s: LedgerView, i: int)
    requires
        s.wf(),
        0 <= i < s.markets.len(),
    ensures
        sum_shares(s.positions, s.markets[i].id, MarketOutcome::Yes)
            == s.markets[i].yes_shares_outstanding,
        sum_shares(s.positions, s.markets[i].id, MarketOutcome::No)
            == s.markets[i].no_shares_outstanding,
{
}

/// No operation deletes a market, decreases a market aggregate, or decreases
/// a position balance: there is no trade-cancellation or refund path.
pub proof fn lemma_step_never_decreases(
    pre: LedgerView,
    post: LedgerView,
    op: Operation,
    ctx: CallContext,
    r: Result<(), MarketError>,
)
    requires
        pre.wf(),
        op_fits(pre, op, ctx),
        step(pre, post, op, ctx, r),
    ensures
        pre.markets.len() <= post.markets.len(),
        forall|id: u64| pre.has_market(id) ==> #[trigger] post.has_market(id),
        forall|id: u64|
            pre.has_market(id) ==> {
                &&& (#[trigger] post.market_of(id)).yes_shares_outstanding >= pre.market_of(
                    id,
                ).yes_shares_outstanding
                &&& post.market_of(id).no_shares_outstanding >= pre.market_of(
                    id,
                ).no_shares_outstanding
                &&& post.market_of(id).total_volume >= pre.market_of(id).total_volume
            },
        pre.positions.len() <= post.positions.len(),
        forall|k: int|
            0 <= k < pre.positions.len() ==> {
                &&& (#[trigger] post.positions[k]).yes_shares >= pre.positions[k].yes_shares
                &&& post.positions[k].no_shares >= pre.positions[k].no_shares
            },
{
    match op {
        Operation::CreateMarket { .. } => {},
        Operation::PlaceTrade { market_id, outcome, shares } => {
            if r is Ok {
                let owner = ctx.caller;
                let j = position_index(pre.positions, market_id, owner@);
                lemma_position_index_properties(pre.positions, market_id, owner@);
                assert(pre.markets[market_id - 1].id == market_id);
                if j >= 0 {
                    assert(key_matches(pre.positions[j], market_id, owner@));
                    lemma_element_le_sum(pre.positions, j, market_id, MarketOutcome::Yes);
                    lemma_element_le_sum(pre.positions, j, market_id, MarketOutcome::No);
                }
            }
        },
        Operation::ResolveMarket { .. } => {},
    }
}

/// The first successful market creation allocates id 1.
pub proof fn lemma_first_market_id_is_one(
    s1: LedgerView,
    question: String,
    description: String,
    category: String,
    resolution_criteria: String,
    end_timestamp: u64,
    ctx: CallContext,
)
    requires
        create_transition(
            initial_ledger(),
            s1,
            question,
            description,
            category,
            resolution_criteria,
            end_timestamp,
            ctx,
            Ok(()),
        ),
    ensures
        s1.markets.len() == 1,
        s1.markets[0].id == 1,
        s1.next_market_id == 2,
{
}

/// Ids are allocated strictly increasing by 1 per successful creation: each
/// successful `CreateMarket` stores a market under the pre-state counter and
/// advances the counter by one, so two successful creations in a row allocate
/// consecutive ids.
pub proof fn lemma_create_allocates_sequential_ids(
    s0: LedgerView,
    s1: LedgerView,
    s2: LedgerView,
    question1: String,
    description1: String,
    category1: String,
    resolution_criteria1: String,
    end_timestamp1: u64,
    ctx1: CallContext,
    question2: String,
    description2: String,
    category2: String,
    resolution_criteria2: String,
    end_timestamp2: u64,
    ctx2: CallContext,
)
    requires
        create_transition(
            s0,
            s1,
            question1,
            description1,
            category1,
            resolution_criteria1,
            end_timestamp1,
            ctx1,
            Ok(()),
        ),
        create_transition(
            s1,
            s2,
            question2,
            description2,
            category2,
            resolution_criteria2,
            end_timestamp2,
            ctx2,
            Ok(()),
        ),
    ensures
        s1.markets.last().id == s0.next_market_id,
        s2.markets.last().id == s1.markets.last().id + 1,
        s2.next_market_id == s0.next_market_id + 2,
{
}

/// A rejected `CreateMarket` consumes no id: the ledger, the id counter
/// included, is exactly what it was.
pub proof fn lemma_failed_create_consumes_no_id(
    s0: LedgerView,
    s1: LedgerView,
    question: String,
    description: String,
    category: String,
    resolution_criteria: String,
    end_timestamp: u64,
    ctx: CallContext,
    e: MarketError,
)
    requires
        create_transition(
            s0,
            s1,
            question,
            description,
            category,
            resolution_criteria,
            end_timestamp,
            ctx,
            Err(e),
        ),
    ensures
        s1 == s0,
        s1.next_market_id == s0.next_market_id,
        e == MarketError::InvalidTimestamp,
{
}

/// A trade on a market that is not open is rejected with `MarketNotOpen` and
/// leaves every aggregate and every position unchanged.
pub proof fn lemma_trade_rejected_when_not_open(
    s0: LedgerView,
    s1: LedgerView,
    market_id: u64,
    outcome: MarketOutcome,
    shares: u64,
    owner: String,
    r: Result<(), MarketError>,
)
    requires
        trade_transition(s0, s1, market_id, outcome, shares, owner, r),
        s0.has_market(market_id),
        !(s0.market_of(market_id).status is Open),
    ensures
        r == Err::<(), MarketError>(MarketError::MarketNotOpen),
        s1 == s0,
{
}

/// A trade on a market id that was never allocated is rejected with
/// `MarketNotFound` and changes nothing.
pub proof fn lemma_trade_on_unknown_market(
    s0: LedgerView,
    s1: LedgerView,
    market_id: u64,
    outcome: MarketOutcome,
    shares: u64,
    owner: String,
    r: Result<(), MarketError>,
)
    requires
        trade_transition(s0, s1, market_id, outcome, shares, owner, r),
        !s0.has_market(market_id),
    ensures
        r == Err::<(), MarketError>(MarketError::MarketNotFound),
        s1 == s0,
{
}

/// Resolution succeeds exactly once per market: after a successful
/// resolution, a second `ResolveMarket` on the same market is rejected with
/// `MarketAlreadyResolved` and the recorded outcome stands.
pub proof fn lemma_resolve_exactly_once(
    s0: LedgerView,
    s1: LedgerView,
    s2: LedgerView,
    market_id: u64,
    outcome1: MarketOutcome,
    outcome2: MarketOutcome,
    r2: Result<(), MarketError>,
)
    requires
        resolve_transition(s0, s1, market_id, outcome1, Ok(())),
        resolve_transition(s1, s2, market_id, outcome2, r2),
    ensures
        s1.market_of(market_id).status == MarketStatus::Resolved(outcome1),
        r2 == Err::<(), MarketError>(MarketError::MarketAlreadyResolved),
        s2 == s1,
        s2.market_of(market_id).status == MarketStatus::Resolved(outcome1),
{
    assert(s1.markets.len() == s0.markets.len());
    assert(s1.market_of(market_id).status == MarketStatus::Resolved(outcome1));
}

} // verus!
