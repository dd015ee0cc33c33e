use yesno::{
    Account, EngineError, ErrorKind, Identity, Market, MarketEngine, MarketId, MarketState,
    Position, Side, TransferFailed, TransferRequest, VerifiedIdentity,
};

fn tag() -> MarketId {
    MarketId { asset: *b"rain-tmr" }
}

fn other_tag() -> MarketId {
    MarketId { asset: *b"snow-tmr" }
}

fn who(n: u8) -> Identity {
    Identity { key: [n; 32] }
}

fn admin() -> VerifiedIdentity {
    VerifiedIdentity::attest(who(1))
}

/// A market with 100 staked on yes by 10 and 50 staked on no by 11.
fn staked() -> MarketEngine {
    let mut engine = MarketEngine::new();
    engine.create_market(who(1), tag()).unwrap();
    engine.enter(tag(), who(10), Side::Yes, 100, Ok(())).unwrap();
    engine.enter(tag(), who(11), Side::No, 50, Ok(())).unwrap();
    engine
}

#[test]
fn create_market_starts_open_and_empty() {
    let mut engine = MarketEngine::new();
    assert_eq!(engine.market(&tag()), None);
    let created = engine.create_market(who(1), tag()).unwrap();
    assert_eq!(created, Market::open(tag(), who(1)));
    assert_eq!((created.yes_pool, created.no_pool, created.state), (0, 0, MarketState::Open));
    assert_eq!(engine.market(&tag()), Some(created));
    assert_eq!(engine.market(&other_tag()), None);
}

#[test]
fn create_market_twice_is_a_conflict() {
    let mut engine = staked();
    let before = engine.market(&tag());
    let again = engine.create_market(who(2), tag());
    assert_eq!(again, Err(EngineError::AlreadyExists));
    assert_eq!(again.unwrap_err().kind(), ErrorKind::Conflict);
    assert_eq!(engine.market(&tag()), before);
    assert_eq!(engine.create_market(who(2), other_tag()), Ok(Market::open(other_tag(), who(2))));
}

#[test]
fn enter_appends_a_position_and_grows_the_pool() {
    let mut engine = MarketEngine::new();
    engine.create_market(who(1), tag()).unwrap();
    let first = engine.enter(tag(), who(10), Side::Yes, 100, Ok(())).unwrap();
    assert_eq!(
        first,
        Position {
            id: 0,
            market_id: tag(),
            holder: who(10),
            side: Side::Yes,
            amount: 100,
            claimed: false
        }
    );
    let second = engine.enter(tag(), who(11), Side::No, 50, Ok(())).unwrap();
    assert_eq!(second.id, 1);
    let market = engine.market(&tag()).unwrap();
    assert_eq!((market.yes_pool, market.no_pool), (100, 50));
    assert_eq!(engine.position(0), Some(first));
    assert_eq!(engine.position(1), Some(second));
    assert_eq!(engine.position(2), None);
}

#[test]
fn plan_enter_names_the_deposit_and_changes_nothing() {
    let engine = staked();
    assert_eq!(
        engine.plan_enter(tag(), who(12), Side::No, 25),
        Ok(TransferRequest {
            from: Account::Holder(who(12)),
            to: Account::Escrow(tag()),
            amount: 25
        })
    );
    let market = engine.market(&tag()).unwrap();
    assert_eq!((market.yes_pool, market.no_pool), (100, 50));
    assert_eq!(engine.position(2), None);
    assert_eq!(engine.plan_enter(other_tag(), who(12), Side::No, 25), Err(EngineError::MarketNotFound));
    assert_eq!(engine.plan_enter(tag(), who(12), Side::No, 0), Err(EngineError::InvalidAmount));
}

#[test]
fn stakes_of_one_holder_are_never_merged() {
    let mut engine = staked();
    let again = engine.enter(tag(), who(10), Side::Yes, 7, Ok(())).unwrap();
    assert_eq!(again.id, 2);
    assert_eq!(again.amount, 7);
    assert_eq!(engine.position(0).unwrap().amount, 100);
    assert_eq!(engine.position(2).unwrap().amount, 7);
    assert_eq!(engine.market(&tag()).unwrap().yes_pool, 107);
}

#[test]
fn pools_hold_the_sum_of_the_accepted_stakes() {
    let mut engine = MarketEngine::new();
    engine.create_market(who(1), tag()).unwrap();
    engine.create_market(who(1), other_tag()).unwrap();
    let attempts: Vec<(MarketId, Side, u64, Result<(), TransferFailed>)> = vec![
        (tag(), Side::Yes, 10, Ok(())),
        (tag(), Side::No, 0, Ok(())),
        (tag(), Side::No, 4, Err(TransferFailed)),
        (other_tag(), Side::Yes, 1_000, Ok(())),
        (tag(), Side::No, 5, Ok(())),
        (tag(), Side::Yes, u64::MAX, Ok(())),
        (tag(), Side::Yes, 3, Ok(())),
        (MarketId { asset: [0; 8] }, Side::Yes, 9, Ok(())),
    ];
    let mut accepted: u64 = 0;
    for (i, (market, side, amount, transfer)) in attempts.into_iter().enumerate() {
        if engine.enter(market, who(i as u8), side, amount, transfer).is_ok() && market == tag() {
            accepted += amount;
        }
    }
    assert_eq!(accepted, 18);
    let market = engine.market(&tag()).unwrap();
    assert_eq!(market.yes_pool + market.no_pool, accepted);
    assert_eq!((market.yes_pool, market.no_pool), (13, 5));
    assert_eq!(engine.market(&other_tag()).unwrap().yes_pool, 1_000);
}

#[test]
fn enter_on_unknown_market_is_not_found() {
    let mut engine = staked();
    let refused = engine.enter(other_tag(), who(10), Side::Yes, 5, Ok(()));
    assert_eq!(refused, Err(EngineError::MarketNotFound));
    assert_eq!(refused.unwrap_err().kind(), ErrorKind::NotFound);
    // The market is looked up before the amount is looked at.
    assert_eq!(engine.enter(other_tag(), who(10), Side::Yes, 0, Ok(())), Err(EngineError::MarketNotFound));
    assert_eq!(engine.position(2), None);
}

#[test]
fn enter_of_nothing_is_invalid_and_changes_nothing() {
    let mut engine = staked();
    let before = engine.market(&tag());
    for transfer in [Ok(()), Err(TransferFailed)] {
        let refused = engine.enter(tag(), who(10), Side::Yes, 0, transfer);
        assert_eq!(refused, Err(EngineError::InvalidAmount));
        assert_eq!(refused.unwrap_err().kind(), ErrorKind::InvalidInput);
    }
    assert_eq!(engine.market(&tag()), before);
    assert_eq!(engine.position(2), None);
}

#[test]
fn enter_after_resolve_is_a_conflict_and_changes_nothing() {
    let mut engine = staked();
    engine.resolve(tag(), &admin(), Side::Yes).unwrap();
    let before = engine.market(&tag());
    let refused = engine.enter(tag(), who(12), Side::No, 5, Ok(()));
    assert_eq!(refused, Err(EngineError::MarketResolved));
    assert_eq!(refused.unwrap_err().kind(), ErrorKind::Conflict);
    assert_eq!(engine.enter(tag(), who(12), Side::No, 0, Ok(())), Err(EngineError::MarketResolved));
    assert_eq!(engine.plan_enter(tag(), who(12), Side::No, 5), Err(EngineError::MarketResolved));
    assert_eq!(engine.market(&tag()), before);
    assert_eq!(engine.position(2), None);
}

#[test]
fn enter_past_the_bound_of_its_pool_overflows_and_changes_nothing() {
    let mut engine = staked();
    let before = engine.market(&tag());
    let refused = engine.enter(tag(), who(12), Side::Yes, u64::MAX - 99, Ok(()));
    assert_eq!(refused, Err(EngineError::Overflow));
    assert_eq!(refused.unwrap_err().kind(), ErrorKind::Overflow);
    assert_eq!(engine.enter(tag(), who(12), Side::No, u64::MAX - 49, Ok(())), Err(EngineError::Overflow));
    // Overflow is found before any transfer is asked for.
    assert_eq!(engine.plan_enter(tag(), who(12), Side::No, u64::MAX - 49), Err(EngineError::Overflow));
    assert_eq!(engine.enter(tag(), who(12), Side::No, u64::MAX - 49, Err(TransferFailed)), Err(EngineError::Overflow));
    assert_eq!(engine.market(&tag()), before);
    assert_eq!(engine.position(2), None);
}

#[test]
fn enter_fills_each_pool_to_its_own_bound() {
    let mut engine = staked();
    // 100 on yes: the pool takes u64::MAX - 100 more, whatever is on no.
    let yes = engine.enter(tag(), who(12), Side::Yes, u64::MAX - 100, Ok(())).unwrap();
    assert_eq!(yes.id, 2);
    let no = engine.enter(tag(), who(13), Side::No, u64::MAX - 50, Ok(())).unwrap();
    assert_eq!(no.id, 3);
    let market = engine.market(&tag()).unwrap();
    assert_eq!((market.yes_pool, market.no_pool), (u64::MAX, u64::MAX));
    assert_eq!(engine.enter(tag(), who(14), Side::Yes, 1, Ok(())), Err(EngineError::Overflow));
    assert_eq!(engine.enter(tag(), who(14), Side::No, 1, Ok(())), Err(EngineError::Overflow));
    assert_eq!(engine.retained(tag()), Ok(2 * (u64::MAX as u128)));
}

#[test]
fn enter_yes_and_no_in_either_order_end_in_the_same_pools() {
    // Pools of (MAX - 10, MAX - 20); a yes stake of 10 and a no stake of 20
    // fit their pools, though all four amounts together pass 64 bits.
    let start = || {
        let mut engine = MarketEngine::new();
        engine.create_market(who(1), tag()).unwrap();
        engine.enter(tag(), who(10), Side::Yes, u64::MAX - 10, Ok(())).unwrap();
        engine.enter(tag(), who(11), Side::No, u64::MAX - 20, Ok(())).unwrap();
        engine
    };
    let mut yes_first = start();
    assert!(yes_first.enter(tag(), who(12), Side::Yes, 10, Ok(())).is_ok());
    assert!(yes_first.enter(tag(), who(13), Side::No, 20, Ok(())).is_ok());
    let mut no_first = start();
    assert!(no_first.enter(tag(), who(13), Side::No, 20, Ok(())).is_ok());
    assert!(no_first.enter(tag(), who(12), Side::Yes, 10, Ok(())).is_ok());
    assert_eq!(yes_first.market(&tag()), no_first.market(&tag()));
    let market = yes_first.market(&tag()).unwrap();
    assert_eq!((market.yes_pool, market.no_pool), (u64::MAX, u64::MAX));
}

#[test]
fn payout_past_64_bits_is_capped_and_the_rest_stays_in_escrow() {
    let mut engine = staked();
    engine.enter(tag(), who(12), Side::Yes, u64::MAX - 100, Ok(())).unwrap();
    engine.enter(tag(), who(13), Side::No, u64::MAX - 50, Ok(())).unwrap();
    engine.resolve(tag(), &admin(), Side::Yes).unwrap();
    let both = 2 * (u64::MAX as u128);
    assert_eq!(engine.retained(tag()), Ok(both));
    // 100 of a winning pool of MAX is owed 100 * 2 MAX / MAX = 200.
    assert_eq!(engine.claim(tag(), 0, Ok(())), Ok(200));
    assert_eq!(engine.retained(tag()), Ok(both - 200));
    // MAX - 100 is owed 2 MAX - 200, more than one payout holds.
    assert_eq!(engine.plan_claim(tag(), 2).unwrap().amount, u64::MAX);
    assert_eq!(engine.claim(tag(), 2, Ok(())), Ok(u64::MAX));
    assert_eq!(engine.claim(tag(), 2, Ok(())), Err(EngineError::AlreadyClaimed));
    assert_eq!(engine.claim(tag(), 1, Ok(())), Ok(0));
    assert_eq!(engine.claim(tag(), 3, Ok(())), Ok(0));
    // Staked 2 MAX, paid 200 + MAX: the escrow keeps MAX - 200.
    assert_eq!(engine.retained(tag()), Ok(u64::MAX as u128 - 200));
}

#[test]
fn enter_with_failed_transfer_changes_nothing() {
    let mut engine = staked();
    let before = engine.market(&tag());
    let refused = engine.enter(tag(), who(12), Side::No, 5, Err(TransferFailed));
    assert_eq!(refused, Err(EngineError::TransferFailed));
    assert_eq!(refused.unwrap_err().kind(), ErrorKind::DependencyFailure);
    assert_eq!(engine.market(&tag()), before);
    assert_eq!(engine.position(2), None);
}

#[test]
fn resolve_succeeds_once() {
    let mut engine = staked();
    let resolved = engine.resolve(tag(), &admin(), Side::Yes).unwrap();
    assert_eq!(resolved.state, MarketState::Resolved { outcome: Side::Yes });
    assert_eq!((resolved.yes_pool, resolved.no_pool), (100, 50));
    assert_eq!(engine.market(&tag()), Some(resolved));
    for outcome in [Side::Yes, Side::No] {
        let again = engine.resolve(tag(), &admin(), outcome);
        assert_eq!(again, Err(EngineError::AlreadyResolved));
        assert_eq!(again.unwrap_err().kind(), ErrorKind::Conflict);
    }
    assert_eq!(engine.market(&tag()), Some(resolved));
}

#[test]
fn resolve_by_many_callers_succeeds_for_one() {
    let mut engine = staked();
    let callers = [who(2), who(1), who(3), who(1), who(1)];
    let outcomes: Vec<Result<Market, EngineError>> = callers
        .iter()
        .map(|caller| engine.resolve(tag(), &VerifiedIdentity::attest(*caller), Side::No))
        .collect();
    assert_eq!(outcomes.iter().filter(|outcome| outcome.is_ok()).count(), 1);
    assert_eq!(outcomes[0], Err(EngineError::Unauthorized));
    assert!(outcomes[1].is_ok());
    assert_eq!(outcomes[2], Err(EngineError::Unauthorized));
    assert_eq!(outcomes[3], Err(EngineError::AlreadyResolved));
    assert_eq!(outcomes[4], Err(EngineError::AlreadyResolved));
}

#[test]
fn resolve_by_stranger_is_unauthorized() {
    let mut engine = staked();
    let before = engine.market(&tag());
    let refused = engine.resolve(tag(), &VerifiedIdentity::attest(who(10)), Side::Yes);
    assert_eq!(refused, Err(EngineError::Unauthorized));
    assert_eq!(refused.unwrap_err().kind(), ErrorKind::Unauthorized);
    assert_eq!(engine.market(&tag()), before);
}

#[test]
fn resolve_of_unknown_market_is_not_found() {
    let mut engine = staked();
    assert_eq!(engine.resolve(other_tag(), &admin(), Side::Yes), Err(EngineError::MarketNotFound));
}

#[test]
fn claim_round_trip_pays_the_winner_150() {
    let mut engine = staked();
    engine.resolve(tag(), &admin(), Side::Yes).unwrap();
    assert_eq!(
        engine.plan_claim(tag(), 0),
        Ok(TransferRequest {
            from: Account::Escrow(tag()),
            to: Account::Holder(who(10)),
            amount: 150
        })
    );
    assert_eq!(engine.claim(tag(), 0, Ok(())), Ok(150));
    assert!(engine.position(0).unwrap().claimed);
}

#[test]
fn claim_of_losing_side_pays_0() {
    let mut engine = staked();
    engine.resolve(tag(), &admin(), Side::Yes).unwrap();
    assert_eq!(engine.plan_claim(tag(), 1).unwrap().amount, 0);
    assert_eq!(engine.claim(tag(), 1, Ok(())), Ok(0));
    assert!(engine.position(1).unwrap().claimed);
}

#[test]
fn claim_succeeds_once_per_position() {
    let mut engine = staked();
    engine.resolve(tag(), &admin(), Side::Yes).unwrap();
    assert_eq!(engine.claim(tag(), 0, Ok(())), Ok(150));
    let after = engine.position(0);
    let again = engine.claim(tag(), 0, Ok(()));
    assert_eq!(again, Err(EngineError::AlreadyClaimed));
    assert_eq!(again.unwrap_err().kind(), ErrorKind::Conflict);
    // No second transfer is named.
    assert_eq!(engine.plan_claim(tag(), 0), Err(EngineError::AlreadyClaimed));
    assert_eq!(engine.position(0), after);
    // The other position is not touched by either claim.
    assert!(!engine.position(1).unwrap().claimed);
}

#[test]
fn claim_before_resolve_is_refused() {
    let mut engine = staked();
    let refused = engine.claim(tag(), 0, Ok(()));
    assert_eq!(refused, Err(EngineError::MarketNotResolved));
    assert_eq!(refused.unwrap_err().kind(), ErrorKind::Conflict);
    assert_eq!(engine.plan_claim(tag(), 0), Err(EngineError::MarketNotResolved));
    // The state of the market is looked at before the position is looked up.
    assert_eq!(engine.claim(tag(), 99, Ok(())), Err(EngineError::MarketNotResolved));
    assert!(!engine.position(0).unwrap().claimed);
}

#[test]
fn claim_of_unknown_market_or_position_is_not_found() {
    let mut engine = staked();
    engine.create_market(who(1), other_tag()).unwrap();
    engine.enter(other_tag(), who(12), Side::Yes, 9, Ok(())).unwrap();
    engine.resolve(tag(), &admin(), Side::Yes).unwrap();
    engine.resolve(other_tag(), &admin(), Side::Yes).unwrap();
    assert_eq!(engine.claim(MarketId { asset: [0; 8] }, 0, Ok(())), Err(EngineError::MarketNotFound));
    let missing = engine.claim(tag(), 3, Ok(()));
    assert_eq!(missing, Err(EngineError::PositionNotFound));
    assert_eq!(missing.unwrap_err().kind(), ErrorKind::NotFound);
    assert_eq!(engine.claim(tag(), u64::MAX, Ok(())), Err(EngineError::PositionNotFound));
    // Position 2 is one of the other market.
    assert_eq!(engine.claim(tag(), 2, Ok(())), Err(EngineError::PositionNotFound));
    assert_eq!(engine.claim(other_tag(), 0, Ok(())), Err(EngineError::PositionNotFound));
    assert!(!engine.position(2).unwrap().claimed);
    assert_eq!(engine.claim(other_tag(), 2, Ok(())), Ok(9));
}

#[test]
fn claim_with_failed_transfer_can_be_tried_again() {
    let mut engine = staked();
    engine.resolve(tag(), &admin(), Side::Yes).unwrap();
    let refused = engine.claim(tag(), 0, Err(TransferFailed));
    assert_eq!(refused, Err(EngineError::TransferFailed));
    assert!(!engine.position(0).unwrap().claimed);
    assert_eq!(engine.claim(tag(), 0, Ok(())), Ok(150));
    // Once claimed, the failure of a transfer is not what refuses the claim.
    assert_eq!(engine.claim(tag(), 0, Err(TransferFailed)), Err(EngineError::AlreadyClaimed));
}

#[test]
fn winners_share_both_pools_and_rounding_stays_in_escrow() {
    let mut engine = MarketEngine::new();
    engine.create_market(who(1), tag()).unwrap();
    engine.enter(tag(), who(10), Side::Yes, 1, Ok(())).unwrap();
    engine.enter(tag(), who(11), Side::Yes, 1, Ok(())).unwrap();
    engine.enter(tag(), who(12), Side::Yes, 1, Ok(())).unwrap();
    engine.enter(tag(), who(13), Side::No, 7, Ok(())).unwrap();
    assert_eq!(engine.retained(tag()), Ok(10));
    engine.resolve(tag(), &admin(), Side::Yes).unwrap();
    assert_eq!(engine.retained(tag()), Ok(10));
    assert_eq!(engine.claim(tag(), 0, Ok(())), Ok(3));
    assert_eq!(engine.retained(tag()), Ok(7));
    assert_eq!(engine.claim(tag(), 1, Ok(())), Ok(3));
    assert_eq!(engine.claim(tag(), 2, Ok(())), Ok(3));
    assert_eq!(engine.claim(tag(), 3, Ok(())), Ok(0));
    // 10 staked, 9 paid: 1 is left over by rounding down three times.
    assert_eq!(engine.retained(tag()), Ok(1));
    assert_eq!(engine.retained(other_tag()), Err(EngineError::MarketNotFound));
}

#[test]
fn side_without_stake_may_win_and_nobody_is_paid() {
    let mut engine = MarketEngine::new();
    engine.create_market(who(1), tag()).unwrap();
    engine.enter(tag(), who(10), Side::No, 40, Ok(())).unwrap();
    let resolved = engine.resolve(tag(), &admin(), Side::Yes).unwrap();
    assert_eq!(resolved.winner(), Some(Side::Yes));
    assert_eq!(engine.claim(tag(), 0, Ok(())), Ok(0));
    assert_eq!(engine.retained(tag()), Ok(40));
}

#[test]
fn markets_are_independent() {
    let mut engine = staked();
    engine.create_market(who(2), other_tag()).unwrap();
    engine.enter(other_tag(), who(10), Side::No, 8, Ok(())).unwrap();
    engine.resolve(tag(), &admin(), Side::No).unwrap();
    let other = engine.market(&other_tag()).unwrap();
    assert_eq!((other.yes_pool, other.no_pool, other.state), (0, 8, MarketState::Open));
    assert_eq!(engine.enter(other_tag(), who(11), Side::Yes, 2, Ok(())).unwrap().id, 3);
    assert_eq!(engine.resolve(other_tag(), &admin(), Side::No), Err(EngineError::Unauthorized));
    assert_eq!(engine.claim(tag(), 1, Ok(())), Ok(150));
    assert_eq!(engine.retained(tag()), Ok(0));
    assert_eq!(engine.retained(other_tag()), Ok(10));
}
