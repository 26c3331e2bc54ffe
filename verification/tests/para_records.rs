use scouty::account::AccountId;
use scouty::para::ParaRecords;

fn account(tag: u8) -> AccountId {
    AccountId::new(vec![tag; 32])
}

#[test]
fn membership_follows_the_active_indices() {
    // Watchlist resolves the stash to position 2; sessions 5 and 6 report
    // different active index sets.
    let stash = account(1);
    let mut records = ParaRecords::new(vec![stash.clone()]);
    records.reset_config_stashes(vec![account(2), account(3), stash.clone(), account(4)]);
    records.insert_record(5, vec![1, 2, 7]);
    assert!(records.is_para_validator(&stash));
    records.insert_record(6, vec![1, 7]);
    assert!(!records.is_para_validator(&stash));
    // Over the six sessions before the current one, exactly one was a
    // parachain-validator session.
    assert_eq!(records.previous_six_sessions_total(&stash), 1);
}

#[test]
fn repeated_session_signal_is_a_no_op() {
    let stash = account(1);
    let mut records = ParaRecords::new(vec![stash.clone()]);
    records.reset_config_stashes(vec![stash.clone()]);
    records.insert_record(7, vec![0]);
    assert!(records.is_para_validator(&stash));
    // The same session index again, with indices that would say otherwise:
    // the state is unchanged.
    records.insert_record(7, vec![]);
    assert!(records.is_para_validator(&stash));
    records.insert_record(7, vec![5]);
    assert!(records.is_para_validator(&stash));
}

#[test]
fn unresolved_stashes_are_dropped() {
    let stash = account(1);
    let mut records = ParaRecords::new(vec![stash.clone()]);
    // The stash is not in the active validator list this era.
    records.reset_config_stashes(vec![account(2), account(3)]);
    records.insert_record(5, vec![0, 1]);
    assert!(!records.is_para_validator(&stash));
    assert_eq!(records.previous_six_sessions_total(&stash), 0);
}

#[test]
fn watchlist_takes_the_first_position() {
    let stash = account(1);
    let mut records = ParaRecords::new(vec![stash.clone()]);
    // The stash appears twice; its watchlist position is the first one.
    records.reset_config_stashes(vec![account(2), stash.clone(), stash.clone()]);
    records.insert_record(5, vec![1]);
    assert!(records.is_para_validator(&stash));
    records.insert_record(6, vec![2]);
    assert!(!records.is_para_validator(&stash));
}

#[test]
fn rolling_count_covers_exactly_six_previous_sessions() {
    let stash = account(1);
    let mut records = ParaRecords::new(vec![stash.clone()]);
    records.reset_config_stashes(vec![stash.clone()]);
    // A parachain validator in every one of sessions 1 through 12.
    for session in 1..=12u32 {
        records.insert_record(session, vec![0]);
    }
    assert_eq!(records.previous_six_sessions_total(&stash), 6);
    assert!(records.is_para_validator(&stash));
}

#[test]
fn two_watched_stashes_are_tracked_independently() {
    let first = account(1);
    let second = account(2);
    let mut records = ParaRecords::new(vec![first.clone(), second.clone()]);
    records.reset_config_stashes(vec![first.clone(), second.clone()]);
    records.insert_record(5, vec![0]);
    assert!(records.is_para_validator(&first));
    assert!(!records.is_para_validator(&second));
    records.insert_record(6, vec![1]);
    assert!(!records.is_para_validator(&first));
    assert!(records.is_para_validator(&second));
}
