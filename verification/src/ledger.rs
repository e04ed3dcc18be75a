//! The market ledger state machine: the id allocator, the market registry,
//! the position ledger, and the operation dispatcher.
//!
//! Each mutating operation is an atomic unit: it either takes effect in full
//! or leaves the ledger exactly as it was. The contracts pin every transition
//! down with the `*_transition` relations, and every operation preserves
//! `LedgerView::wf`.

use vstd::prelude::*;

use crate::CallContext;
use crate::MarketError;
use crate::MarketOutcome;
use crate::MarketStatus;
use crate::Operation;
use crate::state::LedgerView;
use crate::state::Market;
use crate::state::UserPosition;
use crate::state::distinct_position_keys;
use crate::state::initial_ledger;
use crate::state::key_matches;
use crate::state::lemma_distinct_push_new;
use crate::state::lemma_distinct_update_same_key;
use crate::state::lemma_element_le_sum;
use crate::state::lemma_position_index_properties;
use crate::state::lemma_position_index_unique;
use crate::state::lemma_sum_shares_absent;
use crate::state::lemma_sum_shares_push;
use crate::state::lemma_sum_shares_update;
use crate::state::position_index;
use crate::state::sum_shares;

verus! {

/// The market record a successful `CreateMarket` stores: status `Open`, all
/// aggregates zero, identity and timestamps taken from the call.
pub open spec fn new_market(
    id: u64,
    question: String,
    description: String,
    category: String,
    resolution_criteria: String,
    end_timestamp: u64,
    ctx: CallContext,
) -> Market {
    Market {
        id,
        question,
        description,
        category,
        resolution_criteria,
        end_timestamp,
        status: MarketStatus::Open,
        creator: ctx.caller,
        created_timestamp: ctx.timestamp,
        yes_shares_outstanding: 0,
        no_shares_outstanding: 0,
        total_volume: 0,
    }
}

/// The market record after a trade of `shares` on `outcome`: the matching
/// aggregate and the total volume grow by `shares`, all else is unchanged.
pub open spec fn traded(m: Market, outcome: MarketOutcome, shares: u64) -> Market {
    match outcome {
        MarketOutcome::Yes => Market {
            yes_shares_outstanding: (m.yes_shares_outstanding + shares) as u64,
            total_volume: (m.total_volume + shares) as u64,
            ..m
        },
        MarketOutcome::No => Market {
            no_shares_outstanding: (m.no_shares_outstanding + shares) as u64,
            total_volume: (m.total_volume + shares) as u64,
            ..m
        },
    }
}

/// The market record after resolution to `outcome`.
pub open spec fn resolved(m: Market, outcome: MarketOutcome) -> Market {
    Market { status: MarketStatus::Resolved(outcome), ..m }
}

/// A position after `shares` are added to its balance for `outcome`.
pub open spec fn credited(p: UserPosition, outcome: MarketOutcome, shares: u64) -> UserPosition {
    match outcome {
        MarketOutcome::Yes => UserPosition { yes_shares: (p.yes_shares + shares) as u64, ..p },
        MarketOutcome::No => UserPosition { no_shares: (p.no_shares + shares) as u64, ..p },
    }
}

/// The position a first trade by `owner` in `market_id` creates.
pub open spec fn fresh_position(
    market_id: u64,
    owner: String,
    outcome: MarketOutcome,
    shares: u64,
) -> UserPosition {
    match outcome {
        MarketOutcome::Yes => UserPosition { market_id, owner, yes_shares: shares, no_shares: 0 },
        MarketOutcome::No => UserPosition { market_id, owner, yes_shares: 0, no_shares: shares },
    }
}

/// Exactly how `CreateMarket` relates the ledger before and after the call to
/// its result: rejected with `InvalidTimestamp` and no state change when the
/// call time is not strictly before the close time, otherwise one new market
/// appended under the allocated id and the counter advanced by one.
pub open spec fn create_transition(
    pre: LedgerView,
    post: LedgerView,
    question: String,
    description: String,
    category: String,
    resolution_criteria: String,
    end_timestamp: u64,
    ctx: CallContext,
    r: Result<(), MarketError>,
) -> bool {
    if ctx.timestamp >= end_timestamp {
        &&& r == Err::<(), MarketError>(MarketError::InvalidTimestamp)
        &&& post == pre
    } else {
        &&& r == Ok::<(), MarketError>(())
        &&& post.next_market_id == pre.next_market_id + 1
        &&& post.markets == pre.markets.push(
            new_market(
                pre.next_market_id,
                question,
                description,
                category,
                resolution_criteria,
                end_timestamp,
                ctx,
            ),
        )
        &&& post.positions == pre.positions
    }
}

/// Exactly how `PlaceTrade` relates the ledger before and after the call to
/// its result. On success the owner's position is credited (or created) and
/// the market's aggregates grow in step; on any rejection the ledger is
/// unchanged and the error says which rule failed.
pub open spec fn trade_transition(
    pre: LedgerView,
    post: LedgerView,
    market_id: u64,
    outcome: MarketOutcome,
    shares: u64,
    owner: String,
    r: Result<(), MarketError>,
) -> bool {
    if !pre.has_market(market_id) {
        &&& r == Err::<(), MarketError>(MarketError::MarketNotFound)
        &&& post == pre
    } else if !(pre.market_of(market_id).status is Open) {
        &&& r == Err::<(), MarketError>(MarketError::MarketNotOpen)
        &&& post == pre
    } else if shares == 0 {
        &&& r == Err::<(), MarketError>(MarketError::InvalidShareAmount)
        &&& post == pre
    } else {
        let j = position_index(pre.positions, market_id, owner@);
        &&& r == Ok::<(), MarketError>(())
        &&& post.next_market_id == pre.next_market_id
        &&& post.markets == pre.markets.update(
            market_id - 1,
            traded(pre.market_of(market_id), outcome, shares),
        )
        &&& if j >= 0 {
            post.positions == pre.positions.update(j, credited(pre.positions[j], outcome, shares))
        } else {
            post.positions == pre.positions.push(
                fresh_position(market_id, owner, outcome, shares),
            )
        }
    }
}

/// Exactly how `ResolveMarket` relates the ledger before and after the call
/// to its result: resolution succeeds only from `Open`, fixes the outcome,
/// and any rejection leaves the ledger unchanged.
pub open spec fn resolve_transition(
    pre: LedgerView,
    post: LedgerView,
    market_id: u64,
    outcome: MarketOutcome,
    r: Result<(), MarketError>,
) -> bool {
    if !pre.has_market(market_id) {
        &&& r == Err::<(), MarketError>(MarketError::MarketNotFound)
        &&& post == pre
    } else if !(pre.market_of(market_id).status is Open) {
        &&& r == Err::<(), MarketError>(MarketError::MarketAlreadyResolved)
        &&& post == pre
    } else {
        &&& r == Ok::<(), MarketError>(())
        &&& post.next_market_id == pre.next_market_id
        &&& post.markets == pre.markets.update(
            market_id - 1,
            resolved(pre.market_of(market_id), outcome),
        )
        &&& post.positions == pre.positions
    }
}

/// One dispatcher step: which transition relation the submitted operation
/// must satisfy.
pub open spec fn step(
    pre: LedgerView,
    post: LedgerView,
    op: Operation,
    ctx: CallContext,
    r: Result<(), MarketError>,
) -> bool {
    match op {
        Operation::CreateMarket {
            question,
            description,
            category,
            resolution_criteria,
            end_timestamp,
        } => create_transition(
            pre,
            post,
            question,
            description,
            category,
            resolution_criteria,
            end_timestamp,
            ctx,
            r,
        ),
        Operation::PlaceTrade { market_id, outcome, shares } => trade_transition(
            pre,
            post,
            market_id,
            outcome,
            shares,
            ctx.caller,
            r,
        ),
        Operation::ResolveMarket { market_id, outcome, oracle_data } => resolve_transition(
            pre,
            post,
            market_id,
            outcome,
            r,
        ),
    }
}

/// Whether a trade's additions stay within the machine word. Only a trade
/// that would otherwise succeed is constrained.
pub open spec fn trade_fits(s: LedgerView, market_id: u64, shares: u64) -> bool {
    (s.has_market(market_id) && s.market_of(market_id).status is Open && shares > 0)
        ==> s.market_of(market_id).total_volume + shares <= u64::MAX
}

/// Whether an operation's arithmetic stays within the machine word in the
/// given state. A host checks this before submitting the operation.
pub open spec fn op_fits(s: LedgerView, op: Operation, ctx: CallContext) -> bool {
    match op {
        Operation::CreateMarket { end_timestamp, .. } => ctx.timestamp < end_timestamp
            ==> s.next_market_id < u64::MAX,
        Operation::PlaceTrade { market_id, shares, .. } => trade_fits(s, market_id, shares),
        Operation::ResolveMarket { .. } => true,
    }
}

/// The market ledger: one id counter, the market records in creation order
/// (the market with id `k` is stored at index `k - 1`), and the per-owner
/// positions under structured composite keys.
pub struct MarketLedger {
    pub next_market_id: u64,
    pub markets: Vec<Market>,
    pub positions: Vec<UserPosition>,
}

impl View for MarketLedger {
    type V = LedgerView;

    open spec fn view(&self) -> LedgerView {
        LedgerView {
            next_market_id: self.next_market_id,
            markets: self.markets@,
            positions: self.positions@,
        }
    }
}

impl MarketLedger {
    /// A fresh ledger: the id counter starts at 1, so the first allocated
    /// market id is 1.
    pub fn new() -> (ledger: MarketLedger)
        ensures
            ledger@ == initial_ledger(),
            ledger@.wf(),
    {
        let ledger = MarketLedger {
            next_market_id: 1,
            markets: Vec::new(),
            positions: Vec::new(),
        };
        proof {
            assert(ledger@ =~= initial_ledger());
        }
        ledger
    }

    /// Creates a market: allocates the next id, stores the record with status
    /// `Open` and zero aggregates, and advances the id counter. Rejected with
    /// `InvalidTimestamp`, consuming no id, unless the call time is strictly
    /// before the close time.
    pub fn create_market(
        &mut self,
        question: String,
        description: String,
        category: String,
        resolution_criteria: String,
        end_timestamp: u64,
        ctx: &CallContext,
    ) -> (r: Result<(), MarketError>)
        requires
            old(self)@.wf(),
            ctx.timestamp < end_timestamp ==> old(self)@.next_market_id < u64::MAX,
        ensures
            final(self)@.wf(),
            create_transition(
                old(self)@,
                final(self)@,
                question,
                description,
                category,
                resolution_criteria,
                end_timestamp,
                *ctx,
                r,
            ),
    {
        if ctx.timestamp >= end_timestamp {
            return Err(MarketError::InvalidTimestamp);
        }
        let id = self.next_market_id;
        let market = Market {
            id,
            question,
            description,
            category,
            resolution_criteria,
            end_timestamp,
            status: MarketStatus::Open,
            creator: ctx.caller.clone(),
            created_timestamp: ctx.timestamp,
            yes_shares_outstanding: 0,
            no_shares_outstanding: 0,
            total_volume: 0,
        };
        self.markets.push(market);
        self.next_market_id = id + 1;
        proof {
            let pre = old(self)@;
            let post = self@;
            assert forall|i: int| 0 <= i < post.markets.len() implies {
                &&& sum_shares(post.positions, (#[trigger] post.markets[i]).id, MarketOutcome::Yes)
                    == post.markets[i].yes_shares_outstanding
                &&& sum_shares(post.positions, post.markets[i].id, MarketOutcome::No)
                    == post.markets[i].no_shares_outstanding
            } by {
                if i == post.markets.len() - 1 {
                    assert(forall|k: int|
                        0 <= k < post.positions.len() ==> (#[trigger] post.positions[k]).market_id
                            != post.markets[i].id);
                    lemma_sum_shares_absent(post.positions, post.markets[i].id, MarketOutcome::Yes);
                    lemma_sum_shares_absent(post.positions, post.markets[i].id, MarketOutcome::No);
                } else {
                    assert(post.markets[i] == pre.markets[i]);
                }
            }
        }
        Ok(())
    }

    /// Resolves a market: the only allowed lifecycle transition, `Open` to
    /// `Resolved(outcome)`, taken at most once per market. Rejected with
    /// `MarketNotFound` for an unknown id and `MarketAlreadyResolved` when the
    /// market is no longer open; rejections change nothing.
    pub fn resolve_market(&mut self, market_id: u64, outcome: MarketOutcome) -> (r: Result<
        (),
        MarketError,
    >)
        requires
            old(self)@.wf(),
        ensures
            final(self)@.wf(),
            resolve_transition(old(self)@, final(self)@, market_id, outcome, r),
    {
        if market_id < 1 || market_id > self.markets.len() as u64 {
            return Err(MarketError::MarketNotFound);
        }
        let idx = (market_id - 1) as usize;
        let open_now = match self.markets[idx].status {
            MarketStatus::Open => true,
            _ => false,
        };
        if !open_now {
            return Err(MarketError::MarketAlreadyResolved);
        }
        let m = &self.markets[idx];
        let updated = Market {
            id: m.id,
            question: m.question.clone(),
            description: m.description.clone(),
            category: m.category.clone(),
            resolution_criteria: m.resolution_criteria.clone(),
            end_timestamp: m.end_timestamp,
            status: MarketStatus::Resolved(outcome),
            creator: m.creator.clone(),
            created_timestamp: m.created_timestamp,
            yes_shares_outstanding: m.yes_shares_outstanding,
            no_shares_outstanding: m.no_shares_outstanding,
            total_volume: m.total_volume,
        };
        self.markets.set(idx, updated);
        proof {
            let pre = old(self)@;
            let post = self@;
            assert(post.markets == pre.markets.update(
                market_id - 1,
                resolved(pre.market_of(market_id), outcome),
            ));
            assert forall|i: int| 0 <= i < post.markets.len() implies {
                &&& sum_shares(post.positions, (#[trigger] post.markets[i]).id, MarketOutcome::Yes)
                    == post.markets[i].yes_shares_outstanding
                &&& sum_shares(post.positions, post.markets[i].id, MarketOutcome::No)
                    == post.markets[i].no_shares_outstanding
            } by {
                assert(post.markets[i].id == pre.markets[i].id);
                assert(post.markets[i].yes_shares_outstanding
                    == pre.markets[i].yes_shares_outstanding);
                assert(post.markets[i].no_shares_outstanding
                    == pre.markets[i].no_shares_outstanding);
            }
        }
        Ok(())
    }

    /// Records a trade: adds `shares` to the caller's position balance for
    /// `outcome` (creating the position on the owner's first trade in the
    /// market) and, in the same atomic step, grows the market's matching
    /// aggregate and total volume by `shares`. Rejected with `MarketNotFound`
    /// for an unknown id, `MarketNotOpen` unless the market is open, and
    /// `InvalidShareAmount` for a zero-share trade; rejections change nothing.
    pub fn place_trade(
        &mut self,
        market_id: u64,
        outcome: MarketOutcome,
        shares: u64,
        ctx: &CallContext,
    ) -> (r: Result<(), MarketError>)
        requires
            old(self)@.wf(),
            trade_fits(old(self)@, market_id, shares),
        ensures
            final(self)@.wf(),
            trade_transition(old(self)@, final(self)@, market_id, outcome, shares, ctx.caller, r),
    {
        if market_id < 1 || market_id > self.markets.len() as u64 {
            return Err(MarketError::MarketNotFound);
        }
        let idx = (market_id - 1) as usize;
        let open_now = match self.markets[idx].status {
            MarketStatus::Open => true,
            _ => false,
        };
        if !open_now {
            return Err(MarketError::MarketNotOpen);
        }
        if shares == 0 {
            return Err(MarketError::InvalidShareAmount);
        }
        proof {
            assert(self@.markets[market_id - 1].id == market_id);
            assert(self@.market_of(market_id).total_volume + shares <= u64::MAX);
        }
        match find_position(&self.positions, market_id, &ctx.caller) {
            Some(j) => {
                proof {
                    lemma_position_index_properties(self.positions@, market_id, ctx.caller@);
                    lemma_element_le_sum(self.positions@, j as int, market_id, MarketOutcome::Yes);
                    lemma_element_le_sum(self.positions@, j as int, market_id, MarketOutcome::No);
                }
                let p = &self.positions[j];
                let (new_yes, new_no): (u64, u64) = match outcome {
                    MarketOutcome::Yes => (p.yes_shares + shares, p.no_shares),
                    MarketOutcome::No => (p.yes_shares, p.no_shares + shares),
                };
                let updated = UserPosition {
                    market_id,
                    owner: p.owner.clone(),
                    yes_shares: new_yes,
                    no_shares: new_no,
                };
                self.positions.set(j, updated);
            },
            None => {
                let (new_yes, new_no): (u64, u64) = match outcome {
                    MarketOutcome::Yes => (shares, 0),
                    MarketOutcome::No => (0, shares),
                };
                let fresh = UserPosition {
                    market_id,
                    owner: ctx.caller.clone(),
                    yes_shares: new_yes,
                    no_shares: new_no,
                };
                self.positions.push(fresh);
            },
        }
        let m = &self.markets[idx];
        let (agg_yes, agg_no): (u64, u64) = match outcome {
            MarketOutcome::Yes => (m.yes_shares_outstanding + shares, m.no_shares_outstanding),
            MarketOutcome::No => (m.yes_shares_outstanding, m.no_shares_outstanding + shares),
        };
        let updated_market = Market {
            id: m.id,
            question: m.question.clone(),
            description: m.description.clone(),
            category: m.category.clone(),
            resolution_criteria: m.resolution_criteria.clone(),
            end_timestamp: m.end_timestamp,
            status: m.status,
            creator: m.creator.clone(),
            created_timestamp: m.created_timestamp,
            yes_shares_outstanding: agg_yes,
            no_shares_outstanding: agg_no,
            total_volume: m.total_volume + shares,
        };
        self.markets.set(idx, updated_market);
        proof {
            let pre = old(self)@;
            let post = self@;
            let owner_view = ctx.caller@;
            let j = position_index(pre.positions, market_id, owner_view);
            lemma_position_index_properties(pre.positions, market_id, owner_view);
            assert(post.markets == pre.markets.update(
                market_id - 1,
                traded(pre.market_of(market_id), outcome, shares),
            ));
            if j >= 0 {
                let p2 = credited(pre.positions[j], outcome, shares);
                assert(post.positions == pre.positions.update(j, p2));
                lemma_distinct_update_same_key(pre.positions, j, p2);
                assert forall|i: int| 0 <= i < post.markets.len() implies {
                    &&& sum_shares(
                        post.positions,
                        (#[trigger] post.markets[i]).id,
                        MarketOutcome::Yes,
                    ) == post.markets[i].yes_shares_outstanding
                    &&& sum_shares(post.positions, post.markets[i].id, MarketOutcome::No)
                        == post.markets[i].no_shares_outstanding
                } by {
                    let mid = post.markets[i].id;
                    lemma_sum_shares_update(pre.positions, j, p2, mid, MarketOutcome::Yes);
                    lemma_sum_shares_update(pre.positions, j, p2, mid, MarketOutcome::No);
                    if i != market_id - 1 {
                        assert(post.markets[i] == pre.markets[i]);
                        assert(pre.positions[j].market_id == market_id);
                    }
                }
            } else {
                let p2 = fresh_position(market_id, ctx.caller, outcome, shares);
                assert(post.positions == pre.positions.push(p2));
                lemma_distinct_push_new(pre.positions, p2);
                assert forall|i: int| 0 <= i < post.markets.len() implies {
                    &&& sum_shares(
                        post.positions,
                        (#[trigger] post.markets[i]).id,
                        MarketOutcome::Yes,
                    ) == post.markets[i].yes_shares_outstanding
                    &&& sum_shares(post.positions, post.markets[i].id, MarketOutcome::No)
                        == post.markets[i].no_shares_outstanding
                } by {
                    let mid = post.markets[i].id;
                    lemma_sum_shares_push(pre.positions, p2, mid, MarketOutcome::Yes);
                    lemma_sum_shares_push(pre.positions, p2, mid, MarketOutcome::No);
                    if i != market_id - 1 {
                        assert(post.markets[i] == pre.markets[i]);
                    }
                }
            }
        }
        Ok(())
    }

    /// Validates one submitted operation and applies it atomically: the
    /// ledger changes exactly as the operation's transition relation states,
    /// or not at all. This is the single entry point a host drives with its
    /// serialized operation stream.
    pub fn execute_operation(&mut self, op: Operation, ctx: &CallContext) -> (r: Result<
        (),
        MarketError,
    >)
        requires
            old(self)@.wf(),
            op_fits(old(self)@, op, *ctx),
        ensures
            final(self)@.wf(),
            step(old(self)@, final(self)@, op, *ctx, r),
    {
        match op {
            Operation::CreateMarket {
                question,
                description,
                category,
                resolution_criteria,
                end_timestamp,
            } => self.create_market(
                question,
                description,
                category,
                resolution_criteria,
                end_timestamp,
                ctx,
            ),
            Operation::PlaceTrade { market_id, outcome, shares } => self.place_trade(
                market_id,
                outcome,
                shares,
                ctx,
            ),
            Operation::ResolveMarket { market_id, outcome, oracle_data: _ } => self.resolve_market(
                market_id,
                outcome,
            ),
        }
    }

    /// Whether an operation's arithmetic stays within the machine word in the
    /// current state: the executable check for `op_fits`, for a host to run
    /// before `execute_operation`.
    pub fn operation_fits(&self, op: &Operation, ctx: &CallContext) -> (r: bool)
        requires
            self@.wf(),
        ensures
            r == op_fits(self@, *op, *ctx),
    {
        match op {
            Operation::CreateMarket { end_timestamp, .. } => {
                if ctx.timestamp < *end_timestamp {
                    self.next_market_id < u64::MAX
                } else {
                    true
                }
            },
            Operation::PlaceTrade { market_id, shares, .. } => {
                let market_id = *market_id;
                let shares = *shares;
                if market_id < 1 || market_id > self.markets.len() as u64 {
                    true
                } else {
                    let idx = (market_id - 1) as usize;
                    let open_now = match self.markets[idx].status {
                        MarketStatus::Open => true,
                        _ => false,
                    };
                    if !open_now || shares == 0 {
                        true
                    } else {
                        proof {
                            assert(self@.markets[market_id - 1].id == market_id);
                        }
                        shares <= u64::MAX - self.markets[idx].total_volume
                    }
                }
            },
            Operation::ResolveMarket { .. } => true,
        }
    }

    /// The stored position of `owner` in `market_id`, or the implicit
    /// zero-balance position when the owner has not traded there yet. Never
    /// fails.
    pub fn get_position(&self, market_id: u64, owner: &String) -> (p: UserPosition)
        requires
            self@.wf(),
        ensures
            p.market_id == market_id,
            p.owner@ == owner@,
            ({
                let j = position_index(self@.positions, market_id, owner@);
                if j >= 0 {
                    p.yes_shares == self@.positions[j].yes_shares && p.no_shares
                        == self@.positions[j].no_shares
                } else {
                    p.yes_shares == 0 && p.no_shares == 0
                }
            }),
    {
        match find_position(&self.positions, market_id, owner) {
            Some(j) => {
                let q = &self.positions[j];
                UserPosition {
                    market_id,
                    owner: owner.clone(),
                    yes_shares: q.yes_shares,
                    no_shares: q.no_shares,
                }
            },
            None => UserPosition { market_id, owner: owner.clone(), yes_shares: 0, no_shares: 0 },
        }
    }

    /// A read-only lookup: the stored market record, or `None` for an id that
    /// was never allocated. Absence is not an error at this layer.
    pub fn get_market(&self, market_id: u64) -> (r: Option<&Market>)
        requires
            self@.wf(),
        ensures
            match r {
                Some(m) => self@.has_market(market_id) && *m == self@.market_of(market_id),
                None => !self@.has_market(market_id),
            },
    {
        if market_id < 1 || market_id > self.markets.len() as u64 {
            return None;
        }
        Some(&self.markets[(market_id - 1) as usize])
    }

    /// The number of markets ever created (markets are never deleted).
    pub fn market_count(&self) -> (n: u64)
        requires
            self@.wf(),
        ensures
            n == self@.markets.len(),
    {
        self.markets.len() as u64
    }

    /// The market record at creation index `i`; with `market_count` this is
    /// the full-scan read surface a query layer paginates or filters over.
    pub fn market_at(&self, i: usize) -> (m: &Market)
        requires
            self@.wf(),
            i < self@.markets.len(),
        ensures
            *m == self@.markets[i as int],
    {
        &self.markets[i]
    }

    /// The id the next successful `CreateMarket` will allocate.
    pub fn next_market_id(&self) -> (id: u64)
        ensures
            id == self@.next_market_id,
    {
        self.next_market_id
    }
}

/// Linear scan for the position with key `(market_id, owner)`; the result
/// agrees exactly with `position_index`.
fn find_position(positions: &Vec<UserPosition>, market_id: u64, owner: &String) -> (r: Option<
    usize,
>)
    requires
        distinct_position_keys(positions@),
    ensures
        match r {
            Some(j) => j < positions@.len() && position_index(positions@, market_id, owner@)
                == j as int,
            None => position_index(positions@, market_id, owner@) == -1,
        },
{
    let n = positions.len();
    let mut i: usize = 0;
    while i < n
        invariant
            n == positions@.len(),
            distinct_position_keys(positions@),
            i <= n,
            forall|k: int| 0 <= k < i ==> !key_matches(#[trigger] positions@[k], market_id, owner@),
        decreases n - i,
    {
        if positions[i].market_id == market_id && positions[i].owner == *owner {
            proof {
                lemma_position_index_unique(positions@, i as int, market_id, owner@);
            }
            return Some(i);
        }
        i += 1;
    }
    proof {
        lemma_position_index_properties(positions@, market_id, owner@);
    }
    None
}

} // verus!
