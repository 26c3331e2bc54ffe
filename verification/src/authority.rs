//! Block-authorship attribution and the per-session authored-block counts.
//!
//! A finalized block carries a consensus pre-runtime digest naming the
//! authority index of its producer.  `decode_authority_index` extracts that
//! index from the header's digest log; `AuthorityRecords` resolves it against
//! the active authority set and counts blocks authored per watched validator
//! per session, pruning entries as the session window advances.

use vstd::prelude::*;

use crate::account::{account_views, contains_account, AccountId};
use crate::session_map::SessionMap;

verus! {

/// One entry of a block header's digest log: a consensus pre-runtime record
/// with its payload, a seal, or anything else (which authorship attribution
/// ignores).
pub enum DigestEntry {
    PreRuntime(Vec<u8>),
    Seal(Vec<u8>),
    Other,
}

/// A validator's position in the current authority set.
pub type AuthorityIndex = u32;

/// Discriminant of a primary-slot pre-digest record.
pub const PRE_DIGEST_PRIMARY: u8 = 1;

/// Discriminant of a secondary-plain-slot pre-digest record.
pub const PRE_DIGEST_SECONDARY_PLAIN: u8 = 2;

/// Discriminant of a secondary-VRF-slot pre-digest record.
pub const PRE_DIGEST_SECONDARY_VRF: u8 = 3;

/// Byte length of a secondary-plain record: discriminant, authority index
/// (4 bytes, little endian), slot number (8 bytes).
pub const SECONDARY_PLAIN_LEN: usize = 13;

/// Byte length of a primary or secondary-VRF record: a secondary-plain record
/// followed by a 32-byte VRF output and a 64-byte VRF proof.
pub const VRF_LEN: usize = 109;

/// The little-endian 32-bit integer at offset `i`.
pub open spec fn le_u32_at(b: Seq<u8>, i: int) -> u32 {
    (b[i] as int + b[i + 1] as int * 0x100 + b[i + 2] as int * 0x10000 + b[i + 3] as int
        * 0x1000000) as u32
}

/// The authority index carried by a pre-runtime payload, if the payload is a
/// well-formed pre-digest record: a known discriminant followed by the
/// authority index and enough bytes for the rest of the record.
pub open spec fn payload_authority(b: Seq<u8>) -> Option<AuthorityIndex> {
    if b.len() >= SECONDARY_PLAIN_LEN && b[0] == PRE_DIGEST_SECONDARY_PLAIN {
        Some(le_u32_at(b, 1))
    } else if b.len() >= VRF_LEN && (b[0] == PRE_DIGEST_PRIMARY || b[0] == PRE_DIGEST_SECONDARY_VRF) {
        Some(le_u32_at(b, 1))
    } else {
        None
    }
}

/// The authority index of the digest log: what the first pre-runtime entry's
/// payload decodes to, or none if there is no pre-runtime entry or its
/// payload is malformed.
pub open spec fn digest_authority(logs: Seq<DigestEntry>) -> Option<AuthorityIndex>
    decreases logs.len(),
{
    if logs.len() == 0 {
        None
    } else {
        match logs[0] {
            DigestEntry::PreRuntime(payload) => payload_authority(payload@),
            _ => digest_authority(logs.drop_first()),
        }
    }
}

fn decode_payload(b: &Vec<u8>) -> (r: Option<AuthorityIndex>)
    ensures
        r == payload_authority(b@),
{
    let n = b.len();
    if n >= SECONDARY_PLAIN_LEN && b[0] == PRE_DIGEST_SECONDARY_PLAIN {
        Some(le_u32_of(b))
    } else if n >= VRF_LEN && (b[0] == PRE_DIGEST_PRIMARY || b[0] == PRE_DIGEST_SECONDARY_VRF) {
        Some(le_u32_of(b))
    } else {
        None
    }
}

fn le_u32_of(b: &Vec<u8>) -> (r: u32)
    requires
        b@.len() >= 5,
    ensures
        r == le_u32_at(b@, 1),
{
    b[1] as u32 + b[2] as u32 * 0x100 + b[3] as u32 * 0x10000 + b[4] as u32 * 0x1000000
}

/// Scan a block header's digest log for the producing authority's index.
///
/// The first pre-runtime entry decides: its payload either decodes to an
/// authority index or the block carries no attributable authority.  A missing
/// or malformed pre-digest is not an error, just "no signal".
pub fn decode_authority_index(logs: &Vec<DigestEntry>) -> (r: Option<AuthorityIndex>)
    ensures
        r == digest_authority(logs@),
{
    let n = logs.len();
    let mut i: usize = 0;
    proof {
        assert(logs@.skip(0) =~= logs@);
    }
    while i < n
        invariant
            n == logs@.len(),
            i <= n,
            digest_authority(logs@) == digest_authority(logs@.skip(i as int)),
        decreases n - i,
    {
        proof {
            assert(logs@.skip(i as int)[0] == logs@[i as int]);
        }
        match &logs[i] {
            DigestEntry::PreRuntime(payload) => {
                return decode_payload(payload);
            },
            _ => {
                proof {
                    assert(logs@.skip(i as int).drop_first() =~= logs@.skip(i as int + 1));
                }
            },
        }
        i = i + 1;
    }
    proof {
        assert(logs@.skip(n as int).len() == 0);
    }
    None
}

/// No pre-runtime entry, no authority: a digest log without a pre-runtime
/// entry never yields an authority index.
pub proof fn lemma_no_pre_runtime_none(logs: Seq<DigestEntry>)
    requires
        forall|i: int| 0 <= i < logs.len() ==> !(#[trigger] logs[i] is PreRuntime),
    ensures
        digest_authority(logs) == None::<AuthorityIndex>,
    decreases logs.len(),
{
    if logs.len() > 0 {
        assert(!(logs[0] is PreRuntime));
        assert(forall|i: int|
            0 <= i < logs.drop_first().len() ==> !(#[trigger] logs.drop_first()[i] is PreRuntime));
        lemma_no_pre_runtime_none(logs.drop_first());
    }
}

/// The abstract state of an [`AuthorityRecords`] tracker.
#[verifier::ext_equal]
pub ghost struct AuthorityState {
    /// The most recently processed block number.
    pub last_block: u32,
    /// The session the tracker believes is active.
    pub session: u32,
    /// The active authority set, index-addressable, refreshed once per era.
    pub authorities: Seq<Seq<u8>>,
    /// The watched stash identities, fixed at construction.
    pub watched: Seq<Seq<u8>>,
    /// Authored-block count per (session, stash).
    pub counts: Map<(int, Seq<u8>), u32>,
}

/// A count incremented by one, saturating at the type's maximum.
pub open spec fn bump(c: u32) -> u32 {
    if c < 0xffff_ffffu32 {
        (c + 1) as u32
    } else {
        c
    }
}

/// The count recorded for (session, stash), with absent entries read as zero.
pub open spec fn count_at(counts: Map<(int, Seq<u8>), u32>, session: int, stash: Seq<u8>) -> u32 {
    if counts.contains_key((session, stash)) {
        counts[(session, stash)]
    } else {
        0u32
    }
}

/// How one delivered block transforms the tracker state.
///
/// A repeated block number is a no-op.  Otherwise, if the block carries an
/// authority index that resolves to a watched stash of the active authority
/// set, that stash's count for the current session is incremented and its
/// entry seven sessions back is pruned; unresolvable indices record nothing.
/// The block number is remembered in every case.
pub open spec fn record_block_step(
    s: AuthorityState,
    block_number: u32,
    authority: Option<AuthorityIndex>,
) -> AuthorityState {
    if s.last_block == block_number {
        s
    } else {
        let recorded = match authority {
            Some(ai) => {
                if ai < s.authorities.len() && s.watched.contains(s.authorities[ai as int]) {
                    let stash = s.authorities[ai as int];
                    let key = (s.session as int, stash);
                    let incremented = s.counts.insert(
                        key,
                        bump(count_at(s.counts, s.session as int, stash)),
                    );
                    let pruned = if s.session >= 7 {
                        incremented.remove((s.session - 7, stash))
                    } else {
                        incremented
                    };
                    AuthorityState { counts: pruned, ..s }
                } else {
                    s
                }
            },
            None => s,
        };
        AuthorityState { last_block: block_number, ..recorded }
    }
}

/// Counts blocks authored per watched validator per session.
#[derive(Debug)]
pub struct AuthorityRecords {
    last_block: u32,
    current_session_index: u32,
    authorities: Vec<AccountId>,
    watched: Vec<AccountId>,
    records: SessionMap<u32>,
}

impl View for AuthorityRecords {
    type V = AuthorityState;

    closed spec fn view(&self) -> AuthorityState {
        AuthorityState {
            last_block: self.last_block,
            session: self.current_session_index,
            authorities: account_views(self.authorities@),
            watched: account_views(self.watched@),
            counts: self.records@,
        }
    }
}

impl AuthorityRecords {
    /// The internal record store is well formed; established by [`Self::new`]
    /// and preserved by every method.
    pub closed spec fn wf(&self) -> bool {
        self.records.wf()
    }

    /// A fresh tracker for the given watched stashes: no block seen, session
    /// zero, no authorities, no counts.
    pub fn new(watched: Vec<AccountId>) -> (r: Self)
        ensures
            r.wf(),
            r@.last_block == 0,
            r@.session == 0,
            r@.authorities.len() == 0,
            r@.watched == account_views(watched@),
            r@.counts == Map::<(int, Seq<u8>), u32>::empty(),
    {
        let r = AuthorityRecords {
            last_block: 0,
            current_session_index: 0,
            authorities: Vec::new(),
            watched,
            records: SessionMap::new(),
        };
        proof {
            assert(r@.authorities =~= Seq::<Seq<u8>>::empty());
        }
        r
    }

    /// Remember the most recently processed block number.
    pub fn set_block(&mut self, new_block: u32)
        requires
            old(self).wf(),
        ensures
            final(self).wf(),
            final(self)@ == (AuthorityState { last_block: new_block, ..old(self)@ }),
    {
        self.last_block = new_block;
    }

    /// Enter a session: called on every session transition, before records
    /// for the new session are inserted.
    pub fn set_session(&mut self, new_session_index: u32)
        requires
            old(self).wf(),
        ensures
            final(self).wf(),
            final(self)@ == (AuthorityState { session: new_session_index, ..old(self)@ }),
    {
        self.current_session_index = new_session_index;
    }

    /// Replace the active authority set wholesale: called once per era, when
    /// the authority-index domain used by block digests changes.
    pub fn set_authorities(&mut self, new_authorities: Vec<AccountId>)
        requires
            old(self).wf(),
        ensures
            final(self).wf(),
            final(self)@ == (AuthorityState {
                authorities: account_views(new_authorities@),
                ..old(self)@
            }),
    {
        self.authorities = new_authorities;
    }

    /// Seed a count outright: used by the initialization pass, which reads
    /// the blocks already authored in the current session from chain state.
    pub fn seed_record(&mut self, session: u32, stash: &AccountId, count: u32)
        requires
            old(self).wf(),
        ensures
            final(self).wf(),
            final(self)@ == (AuthorityState {
                counts: old(self)@.counts.insert((session as int, stash@), count),
                ..old(self)@
            }),
    {
        self.records.set(session, stash, count);
    }

    /// Process one finalized block: see [`record_block_step`] for the exact
    /// transformation.  Duplicate deliveries of a block number are absorbed,
    /// and unresolvable authority indices are expected no-ops, not errors.
    pub fn insert_record(&mut self, block_number: u32, authority: Option<AuthorityIndex>)
        requires
            old(self).wf(),
        ensures
            final(self).wf(),
            final(self)@ == record_block_step(old(self)@, block_number, authority),
    {
        let ghost s0 = self@;
        if self.last_block != block_number {
            if let Some(authority_index) = authority {
                let idx = authority_index as usize;
                if idx < self.authorities.len() {
                    let author = self.authorities[idx].clone();
                    if contains_account(&self.watched, &author) {
                        let sess = self.current_session_index;
                        let current = match self.records.get(sess, &author) {
                            Some(c) => c,
                            None => 0,
                        };
                        let bumped = if current < u32::MAX {
                            current + 1
                        } else {
                            current
                        };
                        self.records.set(sess, &author, bumped);
                        if sess >= 7 {
                            self.records.remove(sess - 7, &author);
                        }
                    }
                }
            }
            self.last_block = block_number;
        }
        proof {
            assert(self@ =~= record_block_step(s0, block_number, authority));
        }
    }

    /// Blocks authored by `stash` in the current session.
    pub fn current_session_total(&self, stash: &AccountId) -> (r: u32)
        requires
            self.wf(),
        ensures
            r == count_at(self@.counts, self@.session as int, stash@),
    {
        match self.records.get(self.current_session_index, stash) {
            Some(c) => c,
            None => 0,
        }
    }

    /// Blocks authored by `stash` in the previous session; zero when no
    /// previous session exists.
    pub fn previous_session_total(&self, stash: &AccountId) -> (r: u32)
        requires
            self.wf(),
        ensures
            r == (if self@.session >= 1 {
                count_at(self@.counts, self@.session - 1, stash@)
            } else {
                0u32
            }),
    {
        if self.current_session_index >= 1 {
            match self.records.get(self.current_session_index - 1, stash) {
                Some(c) => c,
                None => 0,
            }
        } else {
            0
        }
    }

    /// Blocks authored by `stash` over the six sessions before the current
    /// one, saturating at the return type's maximum.  The current session and
    /// anything older than six sessions back are ignored.
    pub fn previous_six_sessions_total(&self, stash: &AccountId) -> (r: u32)
        requires
            self.wf(),
        ensures
            ({
                let t = rolling_sum(self@.counts, self@.session as int, stash@, 6);
                r as int == if t > u32::MAX as int {
                    u32::MAX as int
                } else {
                    t
                }
            }),
    {
        let sess = self.current_session_index;
        let mut total: u64 = 0;
        let mut n: u32 = 1;
        while n <= 6
            invariant
                self.wf(),
                sess == self@.session,
                1 <= n <= 7,
                total == rolling_sum(self@.counts, sess as int, stash@, (n - 1) as nat),
                total <= (n - 1) as u64 * 0xffff_ffffu64,
            decreases 7 - n,
        {
            let c: u32 = if sess >= n {
                match self.records.get(sess - n, stash) {
                    Some(c) => c,
                    None => 0,
                }
            } else {
                0
            };
            total = total + c as u64;
            n = n + 1;
        }
        if total > u32::MAX as u64 {
            u32::MAX
        } else {
            total as u32
        }
    }
}

/// The sum of the counts for sessions `session - n` up to `session - 1`,
/// reading sessions that would be negative, and absent entries, as zero.
pub open spec fn rolling_sum(
    counts: Map<(int, Seq<u8>), u32>,
    session: int,
    stash: Seq<u8>,
    n: nat,
) -> int
    decreases n,
{
    if n == 0 {
        0
    } else {
        rolling_sum(counts, session, stash, (n - 1) as nat) + (if session >= n {
            count_at(counts, session - n, stash) as int
        } else {
            0
        })
    }
}

/// Duplicate delivery is absorbed: processing the same block number again,
/// with any authority index, leaves the state exactly as after the first
/// delivery, so a count increments at most once per distinct block number.
pub proof fn lemma_insert_record_idempotent(
    s: AuthorityState,
    block_number: u32,
    a1: Option<AuthorityIndex>,
    a2: Option<AuthorityIndex>,
)
    ensures
        record_block_step(record_block_step(s, block_number, a1), block_number, a2)
            == record_block_step(s, block_number, a1),
{
    assert(record_block_step(s, block_number, a1).last_block == block_number);
}

/// A block with no decodable authority index never changes the counts.
pub proof fn lemma_no_authority_no_count(s: AuthorityState, block_number: u32)
    ensures
        record_block_step(s, block_number, None).counts == s.counts,
{
}

/// All count entries lie within the retention window: no session more than
/// seven behind the current one, none ahead of it.
pub open spec fn counts_within_window(s: AuthorityState) -> bool {
    forall|k: (int, Seq<u8>)| #[trigger]
        s.counts.contains_key(k) ==> s.session - 7 <= k.0 <= s.session
}

/// Recording blocks preserves the retention window: new entries are written
/// at the current session and pruning only removes entries.
pub proof fn lemma_insert_record_window(
    s: AuthorityState,
    block_number: u32,
    authority: Option<AuthorityIndex>,
)
    requires
        counts_within_window(s),
    ensures
        counts_within_window(record_block_step(s, block_number, authority)),
{
    let s1 = record_block_step(s, block_number, authority);
    assert forall|k: (int, Seq<u8>)| #[trigger] s1.counts.contains_key(k) implies s1.session - 7
        <= k.0 <= s1.session by {
        if !s.counts.contains_key(k) {
            assert(k.0 == s.session as int);
        }
    }
}

/// Pruning happens in lockstep with recording: a block that records a count
/// for a stash also evicts that stash's entry at the oldest retained session,
/// once such a session exists.
pub proof fn lemma_insert_record_prunes(
    s: AuthorityState,
    block_number: u32,
    authority_index: AuthorityIndex,
)
    requires
        s.last_block != block_number,
        authority_index < s.authorities.len(),
        s.watched.contains(s.authorities[authority_index as int]),
        s.session >= 7,
    ensures
        !record_block_step(s, block_number, Some(authority_index)).counts.contains_key(
            (s.session - 7, s.authorities[authority_index as int]),
        ),
{
}

/// The rolling six-session total reads only the entries for sessions
/// `session - 6` up to `session - 1` of the given stash: changing any other
/// entry leaves it unchanged.
pub proof fn lemma_rolling_sum_window(
    counts: Map<(int, Seq<u8>), u32>,
    session: int,
    stash: Seq<u8>,
    key: (int, Seq<u8>),
    value: u32,
    n: nat,
)
    requires
        key.1 != stash || !(session - n <= key.0 <= session - 1),
    ensures
        rolling_sum(counts.insert(key, value), session, stash, n) == rolling_sum(
            counts,
            session,
            stash,
            n,
        ),
    decreases n,
{
    if n > 0 {
        lemma_rolling_sum_window(counts, session, stash, key, value, (n - 1) as nat);
        assert(key != (session - n, stash));
    }
}

} // verus!
