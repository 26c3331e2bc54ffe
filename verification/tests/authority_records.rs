use scouty::account::AccountId;
use scouty::authority::{decode_authority_index, AuthorityRecords, DigestEntry};

fn account(tag: u8) -> AccountId {
    AccountId::new(vec![tag; 32])
}

/// A well-formed secondary-plain pre-digest payload for the given authority
/// index: discriminant 2, the index in little endian, then the slot number.
fn secondary_plain_payload(authority_index: u32) -> Vec<u8> {
    let mut payload = vec![2u8];
    payload.extend_from_slice(&authority_index.to_le_bytes());
    payload.extend_from_slice(&7u64.to_le_bytes());
    payload
}

/// A well-formed primary pre-digest payload: discriminant 1, index, slot,
/// then 96 bytes of VRF material.
fn primary_payload(authority_index: u32) -> Vec<u8> {
    let mut payload = vec![1u8];
    payload.extend_from_slice(&authority_index.to_le_bytes());
    payload.extend_from_slice(&7u64.to_le_bytes());
    payload.extend_from_slice(&[0u8; 96]);
    payload
}

#[test]
fn decode_reads_secondary_plain() {
    let logs = vec![DigestEntry::PreRuntime(secondary_plain_payload(1234))];
    assert_eq!(decode_authority_index(&logs), Some(1234));
}

#[test]
fn decode_reads_primary() {
    let logs = vec![
        DigestEntry::Other,
        DigestEntry::PreRuntime(primary_payload(7)),
        DigestEntry::Seal(vec![0u8; 64]),
    ];
    assert_eq!(decode_authority_index(&logs), Some(7));
}

#[test]
fn decode_rejects_truncated_primary() {
    // A primary record cut off before its VRF material does not decode.
    let mut payload = vec![1u8];
    payload.extend_from_slice(&7u32.to_le_bytes());
    payload.extend_from_slice(&7u64.to_le_bytes());
    let logs = vec![DigestEntry::PreRuntime(payload)];
    assert_eq!(decode_authority_index(&logs), None);
}

#[test]
fn decode_rejects_unknown_discriminant() {
    let logs = vec![DigestEntry::PreRuntime(vec![0u8; 109])];
    assert_eq!(decode_authority_index(&logs), None);
    assert_eq!(decode_authority_index(&vec![DigestEntry::PreRuntime(vec![])]), None);
}

#[test]
fn decode_no_pre_runtime_is_none() {
    assert_eq!(decode_authority_index(&vec![]), None);
    let logs = vec![DigestEntry::Seal(vec![1, 2, 3]), DigestEntry::Other];
    assert_eq!(decode_authority_index(&logs), None);
}

#[test]
fn decode_stops_at_first_pre_runtime() {
    // The first pre-runtime entry decides, even when a later one would decode.
    let logs = vec![
        DigestEntry::PreRuntime(vec![9u8; 4]),
        DigestEntry::PreRuntime(secondary_plain_payload(3)),
    ];
    assert_eq!(decode_authority_index(&logs), None);
}

#[test]
fn authored_blocks_across_a_session_transition() {
    // Watched stash at position 3 of a 5-member authority set; four blocks
    // in session 10, then a transition to session 11.
    let stash = account(1);
    let mut records = AuthorityRecords::new(vec![stash.clone()]);
    records.set_session(10);
    records.set_authorities(vec![account(2), account(3), account(4), stash.clone(), account(5)]);
    for block in 1..=4u32 {
        records.insert_record(block, Some(3));
    }
    assert_eq!(records.current_session_total(&stash), 4);
    records.set_session(11);
    assert_eq!(records.previous_session_total(&stash), 4);
    assert_eq!(records.current_session_total(&stash), 0);
}

#[test]
fn duplicate_block_number_counts_once() {
    let stash = account(1);
    let mut records = AuthorityRecords::new(vec![stash.clone()]);
    records.set_session(10);
    records.set_authorities(vec![stash.clone()]);
    records.insert_record(5, Some(0));
    records.insert_record(5, Some(0));
    records.insert_record(5, Some(0));
    assert_eq!(records.current_session_total(&stash), 1);
    records.insert_record(6, Some(0));
    assert_eq!(records.current_session_total(&stash), 2);
}

#[test]
fn unresolvable_indices_record_nothing() {
    let stash = account(1);
    let mut records = AuthorityRecords::new(vec![stash.clone()]);
    records.set_session(10);
    records.set_authorities(vec![account(2), stash.clone()]);
    // Out-of-range index, unwatched author, and no index at all: no-ops.
    records.insert_record(1, Some(99));
    records.insert_record(2, Some(0));
    records.insert_record(3, None);
    assert_eq!(records.current_session_total(&stash), 0);
    // The block numbers were still remembered: replaying one records nothing.
    records.insert_record(3, Some(1));
    assert_eq!(records.current_session_total(&stash), 0);
    records.insert_record(4, Some(1));
    assert_eq!(records.current_session_total(&stash), 1);
}

#[test]
fn rolling_total_covers_exactly_six_previous_sessions() {
    let stash = account(1);
    let mut records = AuthorityRecords::new(vec![stash.clone()]);
    records.set_authorities(vec![stash.clone()]);
    let mut block = 1u32;
    // One authored block in each of sessions 10 through 18.
    for session in 10..=18u32 {
        records.set_session(session);
        records.insert_record(block, Some(0));
        block += 1;
    }
    records.set_session(19);
    // Sessions 13..=18 count; 10..=12 and the current session do not.
    assert_eq!(records.previous_six_sessions_total(&stash), 6);
    assert_eq!(records.current_session_total(&stash), 0);
    assert_eq!(records.previous_session_total(&stash), 1);
}

#[test]
fn stale_authority_set_fails_closed() {
    // The watched stash is not in the authority set this era: its index is
    // never resolved, so nothing is recorded.
    let stash = account(1);
    let mut records = AuthorityRecords::new(vec![stash.clone()]);
    records.set_session(10);
    records.set_authorities(vec![account(2), account(3)]);
    records.insert_record(1, Some(0));
    records.insert_record(2, Some(1));
    assert_eq!(records.current_session_total(&stash), 0);
}
