use kairos_contracts::ledger::MarketLedger;
use kairos_contracts::CallContext;
use kairos_contracts::Market;
use kairos_contracts::MarketError;
use kairos_contracts::MarketOutcome;
use kairos_contracts::MarketStatus;
use kairos_contracts::Operation;

fn ctx(caller: &str, timestamp: u64) -> CallContext {
    CallContext { caller: caller.to_string(), timestamp }
}

fn bitcoin_market(ledger: &mut MarketLedger, caller: &CallContext) {
    let r = ledger.create_market(
        "Will Bitcoin reach $100k by end of 2025?".to_string(),
        "This market resolves based on Bitcoin price data from CoinGecko".to_string(),
        "crypto".to_string(),
        "Bitcoin price >= $100,000 USD on CoinGecko as of end_timestamp".to_string(),
        1735689600,
        caller,
    );
    assert_eq!(r, Ok(()));
}

#[test]
fn prediction_market_test() {
    let mut ledger = MarketLedger::new();
    let alice = ctx("alice", 1735603200);
    bitcoin_market(&mut ledger, &alice);

    let r = ledger.place_trade(1, MarketOutcome::Yes, 100, &alice);
    assert_eq!(r, Ok(()));

    let market: &Market = ledger.get_market(1).unwrap();
    assert_eq!(market.id, 1);
    assert_eq!(market.question, "Will Bitcoin reach $100k by end of 2025?");
    assert_eq!(market.status, MarketStatus::Open);
    assert_eq!(market.yes_shares_outstanding, 100);
    assert_eq!(market.total_volume, 100);
}

#[test]
fn market_lifecycle_scenario() {
    let mut ledger = MarketLedger::new();
    let alice = ctx("alice", 1735603200);
    bitcoin_market(&mut ledger, &alice);

    let market = ledger.get_market(1).unwrap();
    assert_eq!(market.id, 1);
    assert_eq!(market.status, MarketStatus::Open);
    assert_eq!(market.yes_shares_outstanding, 0);
    assert_eq!(market.no_shares_outstanding, 0);
    assert_eq!(market.total_volume, 0);

    assert_eq!(ledger.place_trade(1, MarketOutcome::Yes, 100, &alice), Ok(()));
    let market = ledger.get_market(1).unwrap();
    assert_eq!(market.yes_shares_outstanding, 100);
    assert_eq!(market.total_volume, 100);
    let position = ledger.get_position(1, &"alice".to_string());
    assert_eq!(position.yes_shares, 100);
    assert_eq!(position.no_shares, 0);

    assert_eq!(ledger.place_trade(1, MarketOutcome::No, 50, &alice), Ok(()));
    let market = ledger.get_market(1).unwrap();
    assert_eq!(market.no_shares_outstanding, 50);
    assert_eq!(market.total_volume, 150);
    let position = ledger.get_position(1, &"alice".to_string());
    assert_eq!(position.yes_shares, 100);
    assert_eq!(position.no_shares, 50);

    assert_eq!(ledger.resolve_market(1, MarketOutcome::Yes), Ok(()));
    let market = ledger.get_market(1).unwrap();
    assert_eq!(market.status, MarketStatus::Resolved(MarketOutcome::Yes));

    assert_eq!(
        ledger.place_trade(1, MarketOutcome::Yes, 10, &alice),
        Err(MarketError::MarketNotOpen)
    );
    let market = ledger.get_market(1).unwrap();
    assert_eq!(market.total_volume, 150);
}

#[test]
fn create_rejects_invalid_timestamp() {
    let mut ledger = MarketLedger::new();
    let late = ctx("alice", 2000);
    let r = ledger.create_market(
        "q".to_string(),
        "d".to_string(),
        "c".to_string(),
        "rc".to_string(),
        2000,
        &late,
    );
    assert_eq!(r, Err(MarketError::InvalidTimestamp));
    assert_eq!(ledger.market_count(), 0);
    assert_eq!(ledger.next_market_id(), 1);
    assert!(ledger.get_market(1).is_none());
}

#[test]
fn ids_start_at_one_and_increase_by_one() {
    let mut ledger = MarketLedger::new();
    let alice = ctx("alice", 10);
    assert_eq!(ledger.next_market_id(), 1);

    let ok = ledger.create_market(
        "first".to_string(),
        "d".to_string(),
        "c".to_string(),
        "rc".to_string(),
        100,
        &alice,
    );
    assert_eq!(ok, Ok(()));
    assert_eq!(ledger.get_market(1).unwrap().id, 1);
    assert_eq!(ledger.next_market_id(), 2);

    // A rejected creation must not consume an id.
    let bad = ledger.create_market(
        "late".to_string(),
        "d".to_string(),
        "c".to_string(),
        "rc".to_string(),
        5,
        &alice,
    );
    assert_eq!(bad, Err(MarketError::InvalidTimestamp));
    assert_eq!(ledger.next_market_id(), 2);
    assert_eq!(ledger.market_count(), 1);

    let ok = ledger.create_market(
        "second".to_string(),
        "d".to_string(),
        "c".to_string(),
        "rc".to_string(),
        100,
        &alice,
    );
    assert_eq!(ok, Ok(()));
    assert_eq!(ledger.get_market(2).unwrap().id, 2);
    assert_eq!(ledger.next_market_id(), 3);
}

#[test]
fn trade_on_unknown_market_fails() {
    let mut ledger = MarketLedger::new();
    let alice = ctx("alice", 10);
    assert_eq!(
        ledger.place_trade(1, MarketOutcome::Yes, 5, &alice),
        Err(MarketError::MarketNotFound)
    );
    bitcoin_market(&mut ledger, &alice);
    assert_eq!(
        ledger.place_trade(2, MarketOutcome::Yes, 5, &alice),
        Err(MarketError::MarketNotFound)
    );
    assert_eq!(
        ledger.place_trade(0, MarketOutcome::No, 5, &alice),
        Err(MarketError::MarketNotFound)
    );
}

#[test]
fn trade_of_zero_shares_fails() {
    let mut ledger = MarketLedger::new();
    let alice = ctx("alice", 10);
    bitcoin_market(&mut ledger, &alice);
    assert_eq!(
        ledger.place_trade(1, MarketOutcome::Yes, 0, &alice),
        Err(MarketError::InvalidShareAmount)
    );
    let market = ledger.get_market(1).unwrap();
    assert_eq!(market.yes_shares_outstanding, 0);
    assert_eq!(market.total_volume, 0);
    let position = ledger.get_position(1, &"alice".to_string());
    assert_eq!(position.yes_shares, 0);
    assert_eq!(position.no_shares, 0);
}

#[test]
fn resolve_unknown_market_fails() {
    let mut ledger = MarketLedger::new();
    assert_eq!(
        ledger.resolve_market(7, MarketOutcome::No),
        Err(MarketError::MarketNotFound)
    );
}

#[test]
fn resolve_succeeds_exactly_once() {
    let mut ledger = MarketLedger::new();
    let alice = ctx("alice", 10);
    bitcoin_market(&mut ledger, &alice);

    assert_eq!(ledger.resolve_market(1, MarketOutcome::No), Ok(()));
    assert_eq!(
        ledger.get_market(1).unwrap().status,
        MarketStatus::Resolved(MarketOutcome::No)
    );

    // The second resolution is rejected and the recorded outcome stands.
    assert_eq!(
        ledger.resolve_market(1, MarketOutcome::Yes),
        Err(MarketError::MarketAlreadyResolved)
    );
    assert_eq!(
        ledger.get_market(1).unwrap().status,
        MarketStatus::Resolved(MarketOutcome::No)
    );
}

#[test]
fn aggregates_conserved_across_owners() {
    let mut ledger = MarketLedger::new();
    let alice = ctx("alice", 10);
    let bob = ctx("bob", 10);
    let carol = ctx("carol", 10);
    bitcoin_market(&mut ledger, &alice);
    bitcoin_market(&mut ledger, &alice);

    assert_eq!(ledger.place_trade(1, MarketOutcome::Yes, 100, &alice), Ok(()));
    assert_eq!(ledger.place_trade(1, MarketOutcome::Yes, 40, &bob), Ok(()));
    assert_eq!(ledger.place_trade(1, MarketOutcome::No, 25, &carol), Ok(()));
    assert_eq!(ledger.place_trade(1, MarketOutcome::Yes, 60, &alice), Ok(()));
    assert_eq!(ledger.place_trade(2, MarketOutcome::No, 7, &bob), Ok(()));

    let market = ledger.get_market(1).unwrap();
    assert_eq!(market.yes_shares_outstanding, 200);
    assert_eq!(market.no_shares_outstanding, 25);
    assert_eq!(market.total_volume, 225);
    assert_eq!(
        market.total_volume,
        market.yes_shares_outstanding + market.no_shares_outstanding
    );

    // Per-owner positions sum to the market aggregates.
    let owners = ["alice", "bob", "carol"];
    let mut yes_sum = 0u64;
    let mut no_sum = 0u64;
    for owner in owners {
        let p = ledger.get_position(1, &owner.to_string());
        yes_sum += p.yes_shares;
        no_sum += p.no_shares;
    }
    assert_eq!(yes_sum, market.yes_shares_outstanding);
    assert_eq!(no_sum, market.no_shares_outstanding);

    // The second market is untouched by trades on the first.
    let market2 = ledger.get_market(2).unwrap();
    assert_eq!(market2.yes_shares_outstanding, 0);
    assert_eq!(market2.no_shares_outstanding, 7);
    assert_eq!(market2.total_volume, 7);
}

#[test]
fn get_position_defaults_to_zero_balance() {
    let mut ledger = MarketLedger::new();
    let alice = ctx("alice", 10);
    bitcoin_market(&mut ledger, &alice);
    let p = ledger.get_position(1, &"nobody".to_string());
    assert_eq!(p.market_id, 1);
    assert_eq!(p.owner, "nobody");
    assert_eq!(p.yes_shares, 0);
    assert_eq!(p.no_shares, 0);
}

#[test]
fn execute_operation_dispatches_all_kinds() {
    let mut ledger = MarketLedger::new();
    let alice = ctx("alice", 1000);

    let create = Operation::CreateMarket {
        question: "q".to_string(),
        description: "d".to_string(),
        category: "c".to_string(),
        resolution_criteria: "rc".to_string(),
        end_timestamp: 2000,
    };
    assert!(ledger.operation_fits(&create, &alice));
    assert_eq!(ledger.execute_operation(create, &alice), Ok(()));
    assert_eq!(ledger.market_count(), 1);

    let trade = Operation::PlaceTrade { market_id: 1, outcome: MarketOutcome::No, shares: 9 };
    assert!(ledger.operation_fits(&trade, &alice));
    assert_eq!(ledger.execute_operation(trade, &alice), Ok(()));
    assert_eq!(ledger.get_market(1).unwrap().no_shares_outstanding, 9);
    assert_eq!(ledger.get_position(1, &"alice".to_string()).no_shares, 9);

    let resolve = Operation::ResolveMarket {
        market_id: 1,
        outcome: MarketOutcome::No,
        oracle_data: "price feed".to_string(),
    };
    assert!(ledger.operation_fits(&resolve, &alice));
    assert_eq!(ledger.execute_operation(resolve, &alice), Ok(()));
    assert_eq!(
        ledger.get_market(1).unwrap().status,
        MarketStatus::Resolved(MarketOutcome::No)
    );
}

#[test]
fn operation_fits_guards_volume_overflow() {
    let mut ledger = MarketLedger::new();
    let alice = ctx("alice", 10);
    bitcoin_market(&mut ledger, &alice);

    // With zero volume even the largest trade fits.
    let huge = Operation::PlaceTrade {
        market_id: 1,
        outcome: MarketOutcome::Yes,
        shares: u64::MAX,
    };
    assert!(ledger.operation_fits(&huge, &alice));

    // After any trade, a u64::MAX trade would overflow the volume.
    assert_eq!(ledger.place_trade(1, MarketOutcome::Yes, 1, &alice), Ok(()));
    assert!(!ledger.operation_fits(&huge, &alice));

    // A trade that is rejected anyway always fits.
    let on_missing = Operation::PlaceTrade {
        market_id: 9,
        outcome: MarketOutcome::Yes,
        shares: u64::MAX,
    };
    assert!(ledger.operation_fits(&on_missing, &alice));
}

#[test]
fn market_scan_matches_lookup() {
    let mut ledger = MarketLedger::new();
    let alice = ctx("alice", 10);
    bitcoin_market(&mut ledger, &alice);
    bitcoin_market(&mut ledger, &alice);
    bitcoin_market(&mut ledger, &alice);

    assert_eq!(ledger.market_count(), 3);
    for i in 0..3u64 {
        let by_index = ledger.market_at(i as usize).id;
        let by_id = ledger.get_market(i + 1).unwrap().id;
        assert_eq!(by_index, i + 1);
        assert_eq!(by_id, i + 1);
    }
    assert!(ledger.get_market(4).is_none());
}

#[test]
fn positions_are_keyed_by_market_and_owner() {
    let mut ledger = MarketLedger::new();
    // Owner names that a separator-joined key would alias: ("1", "2:x") and
    // ("12", ":x") style collisions must stay distinct under the structured key.
    let first = ctx("2:x", 10);
    let second = ctx("x", 10);
    bitcoin_market(&mut ledger, &first);
    bitcoin_market(&mut ledger, &first);

    assert_eq!(ledger.place_trade(1, MarketOutcome::Yes, 11, &first), Ok(()));
    assert_eq!(ledger.place_trade(2, MarketOutcome::Yes, 22, &second), Ok(()));

    assert_eq!(ledger.get_position(1, &"2:x".to_string()).yes_shares, 11);
    assert_eq!(ledger.get_position(2, &"x".to_string()).yes_shares, 22);
    assert_eq!(ledger.get_position(2, &"2:x".to_string()).yes_shares, 0);
    assert_eq!(ledger.get_position(1, &"x".to_string()).yes_shares, 0);
}
