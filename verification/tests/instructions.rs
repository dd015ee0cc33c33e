use yesno::{
    enter_no, enter_yes, initialize_market, EngineError, EnterSide, Identity, InitializeMarket,
    Market, MarketEngine, MarketId, Side, TransferFailed,
};

fn admin() -> InitializeMarket {
    InitializeMarket { admin: Identity { key: [1; 32] } }
}

fn user(n: u8) -> EnterSide {
    EnterSide { market: MarketId { asset: *b"ETH-flip" }, user: Identity { key: [n; 32] } }
}

#[test]
fn initialize_market_creates_the_market_of_the_asset() {
    let mut engine = MarketEngine::new();
    let created = initialize_market(&mut engine, &admin(), *b"ETH-flip").unwrap();
    assert_eq!(created, Market::open(MarketId { asset: *b"ETH-flip" }, Identity { key: [1; 32] }));
    assert_eq!(engine.market(&MarketId { asset: *b"ETH-flip" }), Some(created));
    assert_eq!(
        initialize_market(&mut engine, &admin(), *b"ETH-flip"),
        Err(EngineError::AlreadyExists)
    );
    assert!(initialize_market(&mut engine, &admin(), *b"ETH-flop").is_ok());
}

#[test]
fn enter_yes_and_enter_no_stake_on_their_sides() {
    let mut engine = MarketEngine::new();
    initialize_market(&mut engine, &admin(), *b"ETH-flip").unwrap();
    let yes = enter_yes(&mut engine, &user(5), 30, Ok(())).unwrap();
    let no = enter_no(&mut engine, &user(6), 12, Ok(())).unwrap();
    assert_eq!((yes.id, yes.side, yes.amount, yes.holder), (0, Side::Yes, 30, user(5).user));
    assert_eq!((no.id, no.side, no.amount, no.holder), (1, Side::No, 12, user(6).user));
    let market = engine.market(&user(5).market).unwrap();
    assert_eq!((market.yes_pool, market.no_pool), (30, 12));
}

#[test]
fn enter_yes_and_enter_no_are_refused_as_enter_is() {
    let mut engine = MarketEngine::new();
    assert_eq!(enter_yes(&mut engine, &user(5), 30, Ok(())), Err(EngineError::MarketNotFound));
    assert_eq!(enter_no(&mut engine, &user(5), 30, Ok(())), Err(EngineError::MarketNotFound));
    initialize_market(&mut engine, &admin(), *b"ETH-flip").unwrap();
    assert_eq!(enter_yes(&mut engine, &user(5), 0, Ok(())), Err(EngineError::InvalidAmount));
    assert_eq!(enter_no(&mut engine, &user(5), 0, Ok(())), Err(EngineError::InvalidAmount));
    assert_eq!(
        enter_yes(&mut engine, &user(5), 3, Err(TransferFailed)),
        Err(EngineError::TransferFailed)
    );
    assert_eq!(
        enter_no(&mut engine, &user(5), 3, Err(TransferFailed)),
        Err(EngineError::TransferFailed)
    );
    let market = engine.market(&user(5).market).unwrap();
    assert_eq!((market.yes_pool, market.no_pool), (0, 0));
    assert_eq!(engine.position(0), None);
}
