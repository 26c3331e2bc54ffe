//! Per-session parachain-validator membership of the watched validators.
//!
//! Once per era the watched stashes are resolved to their positions in the
//! active validator list; once per session the chain's active parachain
//! validator indices decide, for each resolved stash, whether it was a
//! parachain validator that session.  Entries older than seven sessions are
//! pruned as the session window advances.

use vstd::prelude::*;

use crate::account::{account_views, first_index_of, position_of, AccountId};
use crate::session_map::SessionMap;

verus! {

/// The abstract state of a [`ParaRecords`] tracker.
#[verifier::ext_equal]
pub ghost struct ParaState {
    /// The session the tracker believes is active.
    pub session: u32,
    /// The watched stash identities, fixed at construction.
    pub watched: Seq<Seq<u8>>,
    /// The watched stashes resolved to their positions in the current era's
    /// active validator list; unresolved stashes are dropped.
    pub watchlist: Seq<(Seq<u8>, u32)>,
    /// Whether each (session, stash) was a parachain validator.
    pub membership: Map<(int, Seq<u8>), bool>,
}

/// The watched stashes paired with their first positions in the active
/// validator list, in watch order; stashes not in the list are dropped.
pub open spec fn resolve_watchlist(watched: Seq<Seq<u8>>, active: Seq<Seq<u8>>) -> Seq<
    (Seq<u8>, u32),
>
    decreases watched.len(),
{
    if watched.len() == 0 {
        Seq::empty()
    } else {
        let rest = resolve_watchlist(watched.drop_last(), active);
        if active.contains(watched.last()) {
            rest + seq![(watched.last(), first_index_of(active, watched.last()) as u32)]
        } else {
            rest
        }
    }
}

/// The membership recorded for (session, stash), with absent entries read as
/// "not a parachain validator".
pub open spec fn member_at(m: Map<(int, Seq<u8>), bool>, session: int, stash: Seq<u8>) -> bool {
    if m.contains_key((session, stash)) {
        m[(session, stash)]
    } else {
        false
    }
}

/// How one session's parachain-validator indices transform the membership
/// map: for each watchlist entry in order, record whether its position is
/// among the active indices under the new session, then prune the entry
/// seven sessions behind the old one (skipped while no such session exists).
pub open spec fn membership_fold(
    m: Map<(int, Seq<u8>), bool>,
    wl: Seq<(Seq<u8>, u32)>,
    new_session: u32,
    indices: Seq<u32>,
    old_session: u32,
) -> Map<(int, Seq<u8>), bool>
    decreases wl.len(),
{
    if wl.len() == 0 {
        m
    } else {
        let prev = membership_fold(m, wl.drop_last(), new_session, indices, old_session);
        let e = wl.last();
        let inserted = prev.insert((new_session as int, e.0), indices.contains(e.1));
        if old_session >= 7 {
            inserted.remove((old_session - 7, e.0))
        } else {
            inserted
        }
    }
}

/// How one session signal transforms the tracker state: a repeated session
/// index is a no-op; otherwise the membership map is updated as
/// [`membership_fold`] says and the new session becomes current.
pub open spec fn record_membership_step(
    s: ParaState,
    new_session_index: u32,
    indices: Seq<u32>,
) -> ParaState {
    if s.session == new_session_index {
        s
    } else {
        ParaState {
            session: new_session_index,
            membership: membership_fold(
                s.membership,
                s.watchlist,
                new_session_index,
                indices,
                s.session,
            ),
            ..s
        }
    }
}

/// Records, per session, whether each watched validator was a parachain
/// validator.
#[derive(Debug)]
pub struct ParaRecords {
    current_session_index: u32,
    watched: Vec<AccountId>,
    config_stashes: Vec<(AccountId, u32)>,
    records: SessionMap<bool>,
}

spec fn pair_views(s: Seq<(AccountId, u32)>) -> Seq<(Seq<u8>, u32)> {
    s.map_values(|p: (AccountId, u32)| (p.0@, p.1))
}

impl View for ParaRecords {
    type V = ParaState;

    closed spec fn view(&self) -> ParaState {
        ParaState {
            session: self.current_session_index,
            watched: account_views(self.watched@),
            watchlist: pair_views(self.config_stashes@),
            membership: self.records@,
        }
    }
}

fn contains_index(list: &Vec<u32>, x: u32) -> (r: bool)
    ensures
        r == list@.contains(x),
{
    let n = list.len();
    let mut i: usize = 0;
    while i < n
        invariant
            n == list@.len(),
            i <= n,
            forall|j: int| 0 <= j < i ==> list@[j] != x,
        decreases n - i,
    {
        if list[i] == x {
            return true;
        }
        i = i + 1;
    }
    proof {
        if list@.contains(x) {
            let j = choose|j: int| 0 <= j < list@.len() && list@[j] == x;
            assert(list@[j] != x);
        }
    }
    false
}

impl ParaRecords {
    /// The internal record store is well formed; established by [`Self::new`]
    /// and preserved by every method.
    pub closed spec fn wf(&self) -> bool {
        self.records.wf()
    }

    /// A fresh tracker for the given watched stashes: session zero, nothing
    /// resolved, no membership records.
    pub fn new(watched: Vec<AccountId>) -> (r: Self)
        ensures
            r.wf(),
            r@.session == 0,
            r@.watched == account_views(watched@),
            r@.watchlist.len() == 0,
            r@.membership == Map::<(int, Seq<u8>), bool>::empty(),
    {
        let r = ParaRecords {
            current_session_index: 0,
            watched,
            config_stashes: Vec::new(),
            records: SessionMap::new(),
        };
        proof {
            assert(r@.watchlist =~= Seq::<(Seq<u8>, u32)>::empty());
        }
        r
    }

    /// Replace the session the tracker believes is active.
    pub fn set_session(&mut self, new_session_index: u32)
        requires
            old(self).wf(),
        ensures
            final(self).wf(),
            final(self)@ == (ParaState { session: new_session_index, ..old(self)@ }),
    {
        self.current_session_index = new_session_index;
    }

    /// Resolve the watched stashes against the era's active validator list:
    /// each watched stash found in the list is stored with its position, the
    /// others are dropped (they are not validators this era and carry no
    /// parachain-membership signal).  Called once per era.
    pub fn reset_config_stashes(&mut self, active_validators: Vec<AccountId>)
        requires
            old(self).wf(),
            active_validators@.len() <= u32::MAX,
        ensures
            final(self).wf(),
            final(self)@ == (ParaState {
                watchlist: resolve_watchlist(
                    old(self)@.watched,
                    account_views(active_validators@),
                ),
                ..old(self)@
            }),
    {
        let ghost active = account_views(active_validators@);
        let ghost watched_v = account_views(self.watched@);
        let mut resolved: Vec<(AccountId, u32)> = Vec::new();
        let wn = self.watched.len();
        let mut i: usize = 0;
        proof {
            assert(pair_views(resolved@) =~= resolve_watchlist(watched_v.take(0), active));
        }
        while i < wn
            invariant
                wn == self.watched@.len(),
                i <= wn,
                watched_v == account_views(self.watched@),
                active == account_views(active_validators@),
                active.len() <= u32::MAX,
                pair_views(resolved@) == resolve_watchlist(watched_v.take(i as int), active),
            decreases wn - i,
        {
            let stash = &self.watched[i];
            let ghost prefix = watched_v.take(i as int);
            match position_of(&active_validators, stash) {
                Some(j) => {
                    resolved.push((stash.clone(), j as u32));
                },
                None => {},
            }
            proof {
                let next = watched_v.take(i as int + 1);
                assert(next.drop_last() =~= prefix);
                assert(next.last() == watched_v[i as int]);
                assert(pair_views(resolved@) =~= resolve_watchlist(next, active));
            }
            i = i + 1;
        }
        self.config_stashes = resolved;
        proof {
            assert(watched_v.take(wn as int) =~= watched_v);
            assert(self@ =~= (ParaState {
                watchlist: resolve_watchlist(account_views(old(self).watched@), active),
                ..old(self)@
            }));
        }
    }

    /// Record one session's parachain-validator membership: see
    /// [`record_membership_step`] for the exact transformation.  A repeated
    /// session signal is absorbed.
    pub fn insert_record(&mut self, new_session_index: u32, active_validator_indices: Vec<u32>)
        requires
            old(self).wf(),
        ensures
            final(self).wf(),
            final(self)@ == record_membership_step(
                old(self)@,
                new_session_index,
                active_validator_indices@,
            ),
    {
        let ghost s0 = self@;
        if self.current_session_index != new_session_index {
            let ghost wl = pair_views(self.config_stashes@);
            let old_session = self.current_session_index;
            let wn = self.config_stashes.len();
            let mut i: usize = 0;
            proof {
                assert(self.records@ == membership_fold(
                    s0.membership,
                    wl.take(0),
                    new_session_index,
                    active_validator_indices@,
                    old_session,
                ));
            }
            while i < wn
                invariant
                    self.wf(),
                    wn == self.config_stashes@.len(),
                    i <= wn,
                    wl == pair_views(self.config_stashes@),
                    old_session == self.current_session_index,
                    self.watched@ == old(self).watched@,
                    self.config_stashes@ == old(self).config_stashes@,
                    self.records@ == membership_fold(
                        s0.membership,
                        wl.take(i as int),
                        new_session_index,
                        active_validator_indices@,
                        old_session,
                    ),
                decreases wn - i,
            {
                let ghost prefix = wl.take(i as int);
                let p = &self.config_stashes[i];
                let is_para = contains_index(&active_validator_indices, p.1);
                let stash = p.0.clone();
                self.records.set(new_session_index, &stash, is_para);
                if old_session >= 7 {
                    self.records.remove(old_session - 7, &stash);
                }
                proof {
                    let next = wl.take(i as int + 1);
                    assert(next.drop_last() =~= prefix);
                    assert(next.last() == wl[i as int]);
                }
                i = i + 1;
            }
            self.current_session_index = new_session_index;
            proof {
                assert(wl.take(wn as int) =~= wl);
            }
        }
        proof {
            assert(self@ =~= record_membership_step(
                s0,
                new_session_index,
                active_validator_indices@,
            ));
        }
    }

    /// Whether `stash` is a parachain validator in the current session;
    /// unrecorded stashes and sessions read as "no".
    pub fn is_para_validator(&self, stash: &AccountId) -> (r: bool)
        requires
            self.wf(),
        ensures
            r == member_at(self@.membership, self@.session as int, stash@),
    {
        match self.records.get(self.current_session_index, stash) {
            Some(b) => b,
            None => false,
        }
    }

    /// In how many of the six sessions before the current one `stash` was a
    /// parachain validator.  The current session and anything older than six
    /// sessions back are ignored.
    pub fn previous_six_sessions_total(&self, stash: &AccountId) -> (r: u32)
        requires
            self.wf(),
        ensures
            r as int == rolling_true_count(self@.membership, self@.session as int, stash@, 6),
    {
        let sess = self.current_session_index;
        let mut total: u32 = 0;
        let mut n: u32 = 1;
        while n <= 6
            invariant
                self.wf(),
                sess == self@.session,
                1 <= n <= 7,
                total as int == rolling_true_count(
                    self@.membership,
                    sess as int,
                    stash@,
                    (n - 1) as nat,
                ),
                total <= n - 1,
            decreases 7 - n,
        {
            let hit: bool = if sess >= n {
                match self.records.get(sess - n, stash) {
                    Some(b) => b,
                    None => false,
                }
            } else {
                false
            };
            if hit {
                total = total + 1;
            }
            n = n + 1;
        }
        total
    }
}

/// In how many of the sessions `session - n` up to `session - 1` the stash
/// was recorded as a parachain validator, reading sessions that would be
/// negative, and absent entries, as "no".
pub open spec fn rolling_true_count(
    m: Map<(int, Seq<u8>), bool>,
    session: int,
    stash: Seq<u8>,
    n: nat,
) -> int
    decreases n,
{
    if n == 0 {
        0
    } else {
        rolling_true_count(m, session, stash, (n - 1) as nat) + (if session >= n && member_at(
            m,
            session - n,
            stash,
        ) {
            1int
        } else {
            0int
        })
    }
}

/// The rolling six-session total reads only the entries for sessions
/// `session - 6` up to `session - 1` of the given stash: changing any other
/// entry leaves it unchanged.
pub proof fn lemma_rolling_count_window(
    m: Map<(int, Seq<u8>), bool>,
    session: int,
    stash: Seq<u8>,
    key: (int, Seq<u8>),
    value: bool,
    n: nat,
)
    requires
        key.1 != stash || !(session - n <= key.0 <= session - 1),
    ensures
        rolling_true_count(m.insert(key, value), session, stash, n) == rolling_true_count(
            m,
            session,
            stash,
            n,
        ),
    decreases n,
{
    if n > 0 {
        lemma_rolling_count_window(m, session, stash, key, value, (n - 1) as nat);
        assert(key != (session - n, stash));
    }
}

/// A repeated session signal is absorbed: recording membership again under
/// the same session index, with any indices, leaves the state exactly as
/// after the first recording.
pub proof fn lemma_record_membership_idempotent(
    s: ParaState,
    new_session_index: u32,
    i1: Seq<u32>,
    i2: Seq<u32>,
)
    ensures
        record_membership_step(record_membership_step(s, new_session_index, i1), new_session_index, i2)
            == record_membership_step(s, new_session_index, i1),
{
    assert(record_membership_step(s, new_session_index, i1).session == new_session_index);
}

/// Whether some watchlist entry is for the given stash.
pub open spec fn watchlist_has(wl: Seq<(Seq<u8>, u32)>, stash: Seq<u8>) -> bool {
    exists|i: int| 0 <= i < wl.len() && (#[trigger] wl[i]).0 == stash
}

/// All membership entries lie within the retention window: no session more
/// than seven behind the current one, none ahead of it, none negative, and
/// every entry belongs to a watchlist stash.
pub open spec fn membership_within_window(s: ParaState) -> bool {
    forall|k: (int, Seq<u8>)| #[trigger]
        s.membership.contains_key(k) ==> 0 <= k.0 <= s.session && s.session - 7 <= k.0
            && watchlist_has(s.watchlist, k.1)
}

proof fn lemma_membership_fold_keys(
    m: Map<(int, Seq<u8>), bool>,
    wl: Seq<(Seq<u8>, u32)>,
    new_session: u32,
    indices: Seq<u32>,
    old_session: u32,
    k: (int, Seq<u8>),
)
    requires
        new_session as int != old_session - 7,
        membership_fold(m, wl, new_session, indices, old_session).contains_key(k),
    ensures
        (m.contains_key(k) && !(old_session >= 7 && k.0 == old_session - 7 && watchlist_has(
            wl,
            k.1,
        ))) || (k.0 == new_session as int && watchlist_has(wl, k.1)),
    decreases wl.len(),
{
    if wl.len() > 0 {
        let dl = wl.drop_last();
        let e = wl.last();
        let prev = membership_fold(m, dl, new_session, indices, old_session);
        let inserted = prev.insert((new_session as int, e.0), indices.contains(e.1));
        if old_session >= 7 {
            assert(k != (old_session - 7, e.0));
        }
        if k == (new_session as int, e.0) {
            assert((wl[wl.len() - 1]).0 == k.1);
        } else {
            assert(prev.contains_key(k));
            lemma_membership_fold_keys(m, dl, new_session, indices, old_session, k);
            if m.contains_key(k) && !(old_session >= 7 && k.0 == old_session - 7 && watchlist_has(
                dl,
                k.1,
            )) {
                if old_session >= 7 && k.0 == old_session - 7 && watchlist_has(wl, k.1) {
                    let i = choose|i: int| 0 <= i < wl.len() && (#[trigger] wl[i]).0 == k.1;
                    if i < wl.len() - 1 {
                        assert((dl[i]).0 == k.1);
                        assert(watchlist_has(dl, k.1));
                    } else {
                        assert(k.1 == e.0);
                    }
                }
            } else {
                let i = choose|i: int| 0 <= i < dl.len() && (#[trigger] dl[i]).0 == k.1;
                assert((wl[i]).0 == k.1);
            }
        }
    }
}

/// Stepping to the next session preserves the retention window: every entry
/// at the oldest retained session is pruned, new entries are written at the
/// new session, and the watchlist is unchanged.
pub proof fn lemma_record_membership_window(s: ParaState, new_session_index: u32, indices: Seq<u32>)
    requires
        membership_within_window(s),
        new_session_index as int == s.session as int + 1,
    ensures
        membership_within_window(record_membership_step(s, new_session_index, indices)),
{
    let s1 = record_membership_step(s, new_session_index, indices);
    assert forall|k: (int, Seq<u8>)| #[trigger] s1.membership.contains_key(k) implies 0 <= k.0
        <= s1.session && s1.session - 7 <= k.0 && watchlist_has(s1.watchlist, k.1) by {
        lemma_membership_fold_keys(
            s.membership,
            s.watchlist,
            new_session_index,
            indices,
            s.session,
            k,
        );
    }
}

} // verus!
