use yesno::identity::{Identity, MarketId};
use yesno::ledger::{LedgerStore, StoreError};
use yesno::market::{Market, Side};
use yesno::position::Position;

fn market(tag: &[u8; 8]) -> Market {
    Market::open(MarketId { asset: *tag }, Identity { key: [3; 32] })
}

fn stake(id: u64, tag: &[u8; 8], amount: u64) -> Position {
    Position::take(id, MarketId { asset: *tag }, Identity { key: [4; 32] }, Side::Yes, amount)
}

#[test]
fn empty_store_holds_nothing() {
    let store = LedgerStore::new();
    assert_eq!(store.get_market(&MarketId { asset: *b"aaaaaaaa" }), None);
    assert_eq!(store.get_position(0), None);
    assert_eq!(store.position_count(), 0);
}

#[test]
fn market_is_inserted_only_where_none_is_stored() {
    let mut store = LedgerStore::new();
    let a = market(b"aaaaaaaa");
    assert_eq!(store.put_market(None, a), Ok(()));
    assert_eq!(store.get_market(&a.id), Some(a));
    let other = Market::open(a.id, Identity { key: [5; 32] });
    assert_eq!(store.put_market(None, other), Err(StoreError::Stale));
    assert_eq!(store.get_market(&a.id), Some(a));
}

#[test]
fn market_is_updated_only_from_the_state_that_was_read() {
    let mut store = LedgerStore::new();
    let a = market(b"aaaaaaaa");
    let b = market(b"bbbbbbbb");
    store.put_market(None, a).unwrap();
    store.put_market(None, b).unwrap();
    let a1 = a.stake(Side::Yes, 10).unwrap();
    assert_eq!(store.put_market(Some(a), a1), Ok(()));
    assert_eq!(store.get_market(&a.id), Some(a1));
    assert_eq!(store.get_market(&b.id), Some(b));
    // A writer that still holds the first state has lost the race.
    let late = a.stake(Side::No, 1).unwrap();
    assert_eq!(store.put_market(Some(a), late), Err(StoreError::Stale));
    assert_eq!(store.get_market(&a.id), Some(a1));
    // Nothing can be updated that is not stored.
    let c = market(b"cccccccc");
    assert_eq!(store.put_market(Some(c), c), Err(StoreError::Stale));
    assert_eq!(store.get_market(&c.id), None);
}

#[test]
fn positions_are_numbered_in_order() {
    let mut store = LedgerStore::new();
    let first = stake(0, b"aaaaaaaa", 5);
    let second = stake(1, b"aaaaaaaa", 6);
    assert_eq!(store.put_position(1, None, second), Err(StoreError::Stale));
    assert_eq!(store.put_position(0, None, first), Ok(()));
    assert_eq!(store.put_position(0, None, first), Err(StoreError::Stale));
    assert_eq!(store.put_position(1, None, second), Ok(()));
    assert_eq!(store.position_count(), 2);
    assert_eq!(store.get_position(0), Some(first));
    assert_eq!(store.get_position(1), Some(second));
    assert_eq!(store.get_position(2), None);
    assert_eq!(store.get_position(u64::MAX), None);
}

#[test]
fn position_is_updated_only_from_the_state_that_was_read() {
    let mut store = LedgerStore::new();
    let first = stake(0, b"aaaaaaaa", 5);
    store.put_position(0, None, first).unwrap();
    assert_eq!(store.put_position(0, Some(first), first.settle()), Ok(()));
    assert_eq!(store.get_position(0), Some(first.settle()));
    assert_eq!(store.put_position(0, Some(first), first.settle()), Err(StoreError::Stale));
    assert_eq!(store.put_position(1, Some(first), first), Err(StoreError::Stale));
    assert_eq!(store.position_count(), 1);
    assert!(first.settle().claimed);
    assert!(first.same_as(&first));
    assert!(!first.same_as(&first.settle()));
    assert!(!first.same_as(&stake(0, b"aaaaaaaa", 6)));
    assert!(!first.same_as(&stake(1, b"aaaaaaaa", 5)));
    assert!(!first.same_as(&stake(0, b"aaaaaaab", 5)));
}
