//! Data model of the market ledger and the invariants that bind it.
//!
//! `LedgerView` is the mathematical model of the persisted state: the id
//! counter, the sequence of market records, and the sequence of per-owner
//! positions. `LedgerView::wf` collects the ledger invariants; the lemmas
//! here support the proofs that every operation preserves them.

use vstd::prelude::*;

use crate::MarketOutcome;
use crate::MarketStatus;

verus! {

/// One binary-outcome market record.
///
/// Identity is `id`, unique and immutable after creation. The aggregates
/// `yes_shares_outstanding`, `no_shares_outstanding` and `total_volume` are
/// monotonically non-decreasing, and `total_volume` always equals the sum of
/// the two outcome aggregates.
pub struct Market {
    pub id: u64,
    pub question: String,
    pub description: String,
    pub category: String,
    pub resolution_criteria: String,
    pub end_timestamp: u64,
    pub status: MarketStatus,
    pub creator: String,
    pub created_timestamp: u64,
    pub yes_shares_outstanding: u64,
    pub no_shares_outstanding: u64,
    pub total_volume: u64,
}

/// An owner's accumulated outcome-share holdings in one market.
///
/// Identity is the composite key `(market_id, owner)`; the key is structured,
/// never a concatenated string, so owner identifiers cannot alias distinct
/// pairs to the same key.
pub struct UserPosition {
    pub market_id: u64,
    pub owner: String,
    pub yes_shares: u64,
    pub no_shares: u64,
}

/// The share balance a position holds for the given outcome.
pub open spec fn outcome_shares(p: UserPosition, outcome: MarketOutcome) -> u64 {
    match outcome {
        MarketOutcome::Yes => p.yes_shares,
        MarketOutcome::No => p.no_shares,
    }
}

/// Whether position `p` has the composite key `(market_id, owner)`.
pub open spec fn key_matches(p: UserPosition, market_id: u64, owner: Seq<char>) -> bool {
    p.market_id == market_id && p.owner@ == owner
}

/// Sum over all positions of the shares held for `outcome` in market
/// `market_id`.
pub open spec fn sum_shares(ps: Seq<UserPosition>, market_id: u64, outcome: MarketOutcome) -> int
    decreases ps.len(),
{
    if ps.len() == 0 {
        0
    } else {
        sum_shares(ps.drop_last(), market_id, outcome) + if ps.last().market_id == market_id {
            outcome_shares(ps.last(), outcome) as int
        } else {
            0
        }
    }
}

/// The index of the position with key `(market_id, owner)`, or `-1` when no
/// position has that key. Well defined whenever keys are distinct.
pub open spec fn position_index(ps: Seq<UserPosition>, market_id: u64, owner: Seq<char>) -> int
    decreases ps.len(),
{
    if ps.len() == 0 {
        -1
    } else if key_matches(ps.last(), market_id, owner) {
        ps.len() - 1
    } else {
        position_index(ps.drop_last(), market_id, owner)
    }
}

/// No two positions share a composite key.
pub open spec fn distinct_position_keys(ps: Seq<UserPosition>) -> bool {
    forall|i: int, j: int|
        0 <= i < j < ps.len() ==> !#[trigger] key_matches(ps[i], ps[j].market_id, ps[j].owner@)
}

/// The mathematical model of the persisted ledger state.
#[verifier::ext_equal]
pub struct LedgerView {
    pub next_market_id: u64,
    pub markets: Seq<Market>,
    pub positions: Seq<UserPosition>,
}

impl LedgerView {
    /// The id counter is always one past the number of markets.
    pub open spec fn counter_consistent(self) -> bool {
        self.next_market_id == self.markets.len() + 1
    }

    /// The market with id `k` is stored at index `k - 1`: ids start at 1 and
    /// increase by exactly 1 per created market.
    pub open spec fn market_ids_sequential(self) -> bool {
        forall|i: int| 0 <= i < self.markets.len() ==> (#[trigger] self.markets[i]).id == i + 1
    }

    /// Cumulative volume equals the sum of the two outcome aggregates.
    pub open spec fn volumes_conserved(self) -> bool {
        forall|i: int|
            0 <= i < self.markets.len() ==> (#[trigger] self.markets[i]).total_volume
                == self.markets[i].yes_shares_outstanding + self.markets[i].no_shares_outstanding
    }

    /// Every market was created strictly before its close time.
    pub open spec fn timestamps_ordered(self) -> bool {
        forall|i: int|
            0 <= i < self.markets.len() ==> (#[trigger] self.markets[i]).created_timestamp
                < self.markets[i].end_timestamp
    }

    /// Every position refers to a market that exists.
    pub open spec fn positions_in_markets(self) -> bool {
        forall|k: int|
            0 <= k < self.positions.len() ==> 1 <= (#[trigger] self.positions[k]).market_id
                <= self.markets.len()
    }

    /// For every market, the per-owner positions sum to the market's
    /// outstanding aggregate, for each of the two outcomes.
    pub open spec fn shares_conserved(self) -> bool {
        forall|i: int|
            0 <= i < self.markets.len() ==> {
                &&& sum_shares(self.positions, (#[trigger] self.markets[i]).id, MarketOutcome::Yes)
                    == self.markets[i].yes_shares_outstanding
                &&& sum_shares(self.positions, self.markets[i].id, MarketOutcome::No)
                    == self.markets[i].no_shares_outstanding
            }
    }

    /// The full ledger invariant: established by the initial state and
    /// preserved by every operation.
    pub open spec fn wf(self) -> bool {
        &&& self.counter_consistent()
        &&& self.market_ids_sequential()
        &&& self.volumes_conserved()
        &&& self.timestamps_ordered()
        &&& distinct_position_keys(self.positions)
        &&& self.positions_in_markets()
        &&& self.shares_conserved()
    }

    /// Whether a market with the given id exists.
    pub open spec fn has_market(self, market_id: u64) -> bool {
        1 <= market_id <= self.markets.len()
    }

    /// The market record with the given id (meaningful when `has_market`).
    pub open spec fn market_of(self, market_id: u64) -> Market {
        self.markets[market_id - 1]
    }
}

/// The ledger before any operation: counter at 1, no markets, no positions.
pub open spec fn initial_ledger() -> LedgerView {
    LedgerView { next_market_id: 1, markets: Seq::empty(), positions: Seq::empty() }
}

/// Appending a position adds its contribution to the sum for its own market
/// and leaves every other market's sum unchanged.
pub proof fn lemma_sum_shares_push(
    ps: Seq<UserPosition>,
    p: UserPosition,
    market_id: u64,
    outcome: MarketOutcome,
)
    ensures
        sum_shares(ps.push(p), market_id, outcome) == sum_shares(ps, market_id, outcome)
            + if p.market_id == market_id {
                outcome_shares(p, outcome) as int
            } else {
                0
            },
{
    assert(ps.push(p).drop_last() =~= ps);
    assert(ps.push(p).last() == p);
}

/// Replacing the position at index `k` changes the sum by the difference of
/// the contributions of the new and old positions.
pub proof fn lemma_sum_shares_update(
    ps: Seq<UserPosition>,
    k: int,
    p: UserPosition,
    market_id: u64,
    outcome: MarketOutcome,
)
    requires
        0 <= k < ps.len(),
    ensures
        sum_shares(ps.update(k, p), market_id, outcome) == sum_shares(ps, market_id, outcome)
            + (if p.market_id == market_id {
                outcome_shares(p, outcome) as int
            } else {
                0
            }) - (if ps[k].market_id == market_id {
                outcome_shares(ps[k], outcome) as int
            } else {
                0
            }),
    decreases ps.len(),
{
    if k == ps.len() - 1 {
        assert(ps.update(k, p).drop_last() =~= ps.drop_last());
        assert(ps.update(k, p).last() == p);
    } else {
        assert(ps.update(k, p).drop_last() =~= ps.drop_last().update(k, p));
        assert(ps.update(k, p).last() == ps.last());
        assert(ps.drop_last()[k] == ps[k]);
        lemma_sum_shares_update(ps.drop_last(), k, p, market_id, outcome);
    }
}

/// A sum of share balances is never negative.
pub proof fn lemma_sum_shares_nonneg(ps: Seq<UserPosition>, market_id: u64, outcome: MarketOutcome)
    ensures
        sum_shares(ps, market_id, outcome) >= 0,
    decreases ps.len(),
{
    if ps.len() > 0 {
        lemma_sum_shares_nonneg(ps.drop_last(), market_id, outcome);
    }
}

/// A market in which no position holds shares has sum zero.
pub proof fn lemma_sum_shares_absent(ps: Seq<UserPosition>, market_id: u64, outcome: MarketOutcome)
    requires
        forall|k: int| 0 <= k < ps.len() ==> (#[trigger] ps[k]).market_id != market_id,
    ensures
        sum_shares(ps, market_id, outcome) == 0,
    decreases ps.len(),
{
    if ps.len() > 0 {
        assert(forall|k: int|
            0 <= k < ps.drop_last().len() ==> (#[trigger] ps.drop_last()[k]).market_id
                != market_id);
        lemma_sum_shares_absent(ps.drop_last(), market_id, outcome);
    }
}

/// Each position's balance is at most the sum over its market.
pub proof fn lemma_element_le_sum(
    ps: Seq<UserPosition>,
    k: int,
    market_id: u64,
    outcome: MarketOutcome,
)
    requires
        0 <= k < ps.len(),
        ps[k].market_id == market_id,
    ensures
        outcome_shares(ps[k], outcome) as int <= sum_shares(ps, market_id, outcome),
    decreases ps.len(),
{
    if k == ps.len() - 1 {
        lemma_sum_shares_nonneg(ps.drop_last(), market_id, outcome);
    } else {
        assert(ps.drop_last()[k] == ps[k]);
        lemma_element_le_sum(ps.drop_last(), k, market_id, outcome);
    }
}

/// What `position_index` returns: `-1` means no position has the key, and a
/// non-negative result is an in-range index whose position has the key.
pub proof fn lemma_position_index_properties(
    ps: Seq<UserPosition>,
    market_id: u64,
    owner: Seq<char>,
)
    ensures
        position_index(ps, market_id, owner) >= -1,
        position_index(ps, market_id, owner) == -1 ==> forall|k: int|
            0 <= k < ps.len() ==> !key_matches(#[trigger] ps[k], market_id, owner),
        position_index(ps, market_id, owner) >= 0 ==> {
            &&& 0 <= position_index(ps, market_id, owner) < ps.len()
            &&& key_matches(ps[position_index(ps, market_id, owner)], market_id, owner)
        },
    decreases ps.len(),
{
    if ps.len() > 0 && !key_matches(ps.last(), market_id, owner) {
        lemma_position_index_properties(ps.drop_last(), market_id, owner);
        assert(forall|k: int| 0 <= k < ps.len() - 1 ==> ps.drop_last()[k] == #[trigger] ps[k]);
    }
}

/// With distinct keys, `position_index` finds exactly the index of any
/// position that has the key.
pub proof fn lemma_position_index_unique(
    ps: Seq<UserPosition>,
    i: int,
    market_id: u64,
    owner: Seq<char>,
)
    requires
        distinct_position_keys(ps),
        0 <= i < ps.len(),
        key_matches(ps[i], market_id, owner),
    ensures
        position_index(ps, market_id, owner) == i,
    decreases ps.len(),
{
    let last = ps.len() - 1;
    if key_matches(ps.last(), market_id, owner) {
        if i < last {
            assert(key_matches(ps[i], ps[last].market_id, ps[last].owner@));
        }
    } else {
        assert(i < last);
        assert(forall|k: int| 0 <= k < last ==> ps.drop_last()[k] == #[trigger] ps[k]);
        assert(distinct_position_keys(ps.drop_last()));
        lemma_position_index_unique(ps.drop_last(), i, market_id, owner);
    }
}

/// Replacing a position with one that keeps its key preserves distinctness.
pub proof fn lemma_distinct_update_same_key(ps: Seq<UserPosition>, k: int, p: UserPosition)
    requires
        distinct_position_keys(ps),
        0 <= k < ps.len(),
        p.market_id == ps[k].market_id,
        p.owner@ == ps[k].owner@,
    ensures
        distinct_position_keys(ps.update(k, p)),
{
    let ps2 = ps.update(k, p);
    assert forall|i: int, j: int| 0 <= i < j < ps2.len() implies !#[trigger] key_matches(
        ps2[i],
        ps2[j].market_id,
        ps2[j].owner@,
    ) by {
        assert(!key_matches(ps[i], ps[j].market_id, ps[j].owner@));
    }
}

/// Appending a position whose key is fresh preserves distinctness.
pub proof fn lemma_distinct_push_new(ps: Seq<UserPosition>, p: UserPosition)
    requires
        distinct_position_keys(ps),
        forall|k: int| 0 <= k < ps.len() ==> !key_matches(#[trigger] ps[k], p.market_id, p.owner@),
    ensures
        distinct_position_keys(ps.push(p)),
{
    let ps2 = ps.push(p);
    assert forall|i: int, j: int| 0 <= i < j < ps2.len() implies !#[trigger] key_matches(
        ps2[i],
        ps2[j].market_id,
        ps2[j].owner@,
    ) by {
        if j < ps.len() {
            assert(!key_matches(ps[i], ps[j].market_id, ps[j].owner@));
        } else {
            assert(!key_matches(ps[i], p.market_id, p.owner@));
        }
    }
}

} // verus!
