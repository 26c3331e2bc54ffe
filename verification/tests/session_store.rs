use scouty::account::{contains_account, position_of, AccountId};
use scouty::authority::AuthorityRecords;
use scouty::session_map::SessionMap;

fn account(tag: u8) -> AccountId {
    AccountId::new(vec![tag; 32])
}

#[test]
fn session_map_get_set_remove() {
    let first = account(1);
    let second = account(2);
    let mut map: SessionMap<u32> = SessionMap::new();
    assert_eq!(map.get(10, &first), None);
    map.set(10, &first, 3);
    map.set(10, &second, 5);
    map.set(11, &first, 7);
    assert_eq!(map.get(10, &first), Some(3));
    assert_eq!(map.get(10, &second), Some(5));
    assert_eq!(map.get(11, &first), Some(7));
    map.set(10, &first, 4);
    assert_eq!(map.get(10, &first), Some(4));
    map.remove(10, &first);
    assert_eq!(map.get(10, &first), None);
    assert_eq!(map.get(10, &second), Some(5));
    // Removing an absent key changes nothing.
    map.remove(99, &first);
    assert_eq!(map.get(10, &second), Some(5));
}

#[test]
fn account_equality_is_by_bytes() {
    assert_eq!(account(1), account(1));
    assert_ne!(account(1), account(2));
    assert_ne!(AccountId::new(vec![1; 32]), AccountId::new(vec![1; 31]));
}

#[test]
fn account_lookup_helpers() {
    let list = vec![account(2), account(1), account(3), account(1)];
    assert!(contains_account(&list, &account(1)));
    assert!(!contains_account(&list, &account(9)));
    assert_eq!(position_of(&list, &account(1)), Some(1));
    assert_eq!(position_of(&list, &account(2)), Some(0));
    assert_eq!(position_of(&list, &account(9)), None);
}

#[test]
fn seeded_counts_read_back() {
    // The initialization pass seeds the current session's counts outright.
    let stash = account(1);
    let mut records = AuthorityRecords::new(vec![stash.clone()]);
    records.set_session(10);
    records.set_authorities(vec![stash.clone()]);
    records.seed_record(10, &stash, 41);
    assert_eq!(records.current_session_total(&stash), 41);
    records.insert_record(1, Some(0));
    assert_eq!(records.current_session_total(&stash), 42);
}
