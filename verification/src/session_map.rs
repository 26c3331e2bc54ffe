//! A small verified map keyed by (session index, stash identity).
//!
//! Both trackers keep one record per session and watched validator.  The map
//! is a vector of entries with pairwise-distinct keys; its mathematical view
//! is a `Map` from `(session, stash bytes)` to the stored value.

use vstd::prelude::*;

use crate::account::AccountId;

verus! {

#[derive(Debug)]
struct SessionEntry<V> {
    session: u32,
    stash: AccountId,
    value: V,
}

/// Map from (session index, stash identity) to a per-session record.
#[derive(Debug)]
pub struct SessionMap<V> {
    entries: Vec<SessionEntry<V>>,
}

spec fn key_of<V>(e: SessionEntry<V>) -> (int, Seq<u8>) {
    (e.session as int, e.stash@)
}

spec fn map_of<V>(s: Seq<SessionEntry<V>>) -> Map<(int, Seq<u8>), V>
    decreases s.len(),
{
    if s.len() == 0 {
        Map::empty()
    } else {
        map_of(s.drop_last()).insert(key_of(s.last()), s.last().value)
    }
}

spec fn distinct_keys<V>(s: Seq<SessionEntry<V>>) -> bool {
    forall|i: int, j: int|
        0 <= i < j < s.len() ==> key_of(#[trigger] s[i]) != key_of(#[trigger] s[j])
}

impl<V> View for SessionMap<V> {
    type V = Map<(int, Seq<u8>), V>;

    closed spec fn view(&self) -> Map<(int, Seq<u8>), V> {
        map_of(self.entries@)
    }
}

/// The keys of `map_of(s)` are exactly the keys of the entries, and each key
/// looks up the value of its (unique) entry.
proof fn lemma_map_of_props<V>(s: Seq<SessionEntry<V>>)
    requires
        distinct_keys(s),
    ensures
        forall|k: (int, Seq<u8>)| #[trigger]
            map_of(s).contains_key(k) ==> exists|i: int| 0 <= i < s.len() && key_of(s[i]) == k,
        forall|i: int|
            0 <= i < s.len() ==> map_of(s).contains_key(key_of(#[trigger] s[i])) && map_of(
                s,
            )[key_of(s[i])] == s[i].value,
    decreases s.len(),
{
    if s.len() > 0 {
        let dl = s.drop_last();
        lemma_map_of_props(dl);
        assert forall|k: (int, Seq<u8>)| #[trigger]
            map_of(s).contains_key(k) implies exists|i: int|
            0 <= i < s.len() && key_of(s[i]) == k by {
            if k == key_of(s.last()) {
                assert(key_of(s[s.len() - 1]) == k);
            } else {
                assert(map_of(dl).contains_key(k));
                let i = choose|i: int| 0 <= i < dl.len() && key_of(dl[i]) == k;
                assert(dl[i] == s[i]);
                assert(key_of(s[i]) == k);
            }
        }
        assert forall|i: int| 0 <= i < s.len() implies map_of(s).contains_key(
            key_of(#[trigger] s[i]),
        ) && map_of(s)[key_of(s[i])] == s[i].value by {
            if i < s.len() - 1 {
                assert(dl[i] == s[i]);
                assert(key_of(s[i]) != key_of(s.last()));
            }
        }
    }
}

proof fn lemma_map_of_update<V>(s: Seq<SessionEntry<V>>, i: int, e: SessionEntry<V>)
    requires
        distinct_keys(s),
        0 <= i < s.len(),
        key_of(e) == key_of(s[i]),
    ensures
        map_of(s.update(i, e)) == map_of(s).insert(key_of(e), e.value),
        distinct_keys(s.update(i, e)),
    decreases s.len(),
{
    let u = s.update(i, e);
    if i == s.len() - 1 {
        assert(u.drop_last() =~= s.drop_last());
        assert(u.last() == e);
        assert(map_of(u) =~= map_of(s).insert(key_of(e), e.value));
    } else {
        let dl = s.drop_last();
        lemma_map_of_update(dl, i, e);
        assert(u.drop_last() =~= dl.update(i, e));
        assert(u.last() == s.last());
        assert(key_of(e) != key_of(s.last()));
        assert(map_of(u) =~= map_of(s).insert(key_of(e), e.value));
    }
    assert forall|p: int, q: int| 0 <= p < q < u.len() implies key_of(#[trigger] u[p]) != key_of(
        #[trigger] u[q],
    ) by {
        assert(key_of(u[p]) == key_of(s[p]));
        assert(key_of(u[q]) == key_of(s[q]));
    }
}

proof fn lemma_map_of_remove<V>(s: Seq<SessionEntry<V>>, i: int)
    requires
        distinct_keys(s),
        0 <= i < s.len(),
    ensures
        map_of(s.remove(i)) == map_of(s).remove(key_of(s[i])),
        distinct_keys(s.remove(i)),
    decreases s.len(),
{
    let r = s.remove(i);
    s.remove_ensures(i);
    lemma_map_of_props(s);
    if i == s.len() - 1 {
        assert(r =~= s.drop_last());
        lemma_map_of_props(s.drop_last());
        assert forall|j: int| 0 <= j < s.len() - 1 implies key_of(#[trigger] s[j]) != key_of(
            s[i],
        ) by {}
        assert(!map_of(s.drop_last()).contains_key(key_of(s[i])));
        assert(map_of(r) =~= map_of(s).remove(key_of(s[i])));
    } else {
        let dl = s.drop_last();
        lemma_map_of_remove(dl, i);
        assert(r.drop_last() =~= dl.remove(i));
        assert(r.last() == s.last());
        assert(key_of(s[i]) != key_of(s.last()));
        assert(map_of(r) =~= map_of(s).remove(key_of(s[i])));
    }
    assert forall|p: int, q: int| 0 <= p < q < r.len() implies key_of(#[trigger] r[p]) != key_of(
        #[trigger] r[q],
    ) by {
        let p0: int = if p < i {
            p
        } else {
            p + 1
        };
        let q0: int = if q < i {
            q
        } else {
            q + 1
        };
        assert(key_of(r[p]) == key_of(s[p0]));
        assert(key_of(r[q]) == key_of(s[q0]));
    }
}

impl<V: Copy> SessionMap<V> {
    /// An empty map.
    pub fn new() -> (r: Self)
        ensures
            r.wf(),
            r@ == Map::<(int, Seq<u8>), V>::empty(),
    {
        SessionMap { entries: Vec::new() }
    }

    /// The entries hold pairwise-distinct keys; every operation keeps this.
    pub closed spec fn wf(&self) -> bool {
        distinct_keys(self.entries@)
    }

    /// The index of the entry with the given key, if any.
    fn find(&self, session: u32, stash: &AccountId) -> (r: Option<usize>)
        ensures
            match r {
                Some(i) => i < self.entries@.len() && key_of(self.entries@[i as int]) == (
                session as int, stash@),
                None => forall|j: int|
                    0 <= j < self.entries@.len() ==> key_of(#[trigger] self.entries@[j]) != (
                    session as int, stash@),
            },
    {
        let n = self.entries.len();
        let mut i: usize = 0;
        while i < n
            invariant
                n == self.entries@.len(),
                i <= n,
                forall|j: int|
                    0 <= j < i ==> key_of(#[trigger] self.entries@[j]) != (session as int, stash@),
            decreases n - i,
        {
            let e = &self.entries[i];
            if e.session == session && e.stash == *stash {
                return Some(i);
            }
            i = i + 1;
        }
        None
    }

    /// The record stored under (session, stash), if any.
    pub fn get(&self, session: u32, stash: &AccountId) -> (r: Option<V>)
        requires
            self.wf(),
        ensures
            ({
                let k = (session as int, stash@);
                r == if self@.contains_key(k) {
                    Some(self@[k])
                } else {
                    None::<V>
                }
            }),
    {
        proof {
            lemma_map_of_props(self.entries@);
        }
        match self.find(session, stash) {
            Some(i) => Some(self.entries[i].value),
            None => {
                proof {
                    let k = (session as int, stash@);
                    if map_of(self.entries@).contains_key(k) {
                        let i = choose|i: int|
                            0 <= i < self.entries@.len() && key_of(self.entries@[i]) == k;
                        assert(key_of(self.entries@[i]) == k);
                    }
                }
                None
            },
        }
    }

    /// Store `value` under (session, stash), replacing any previous record.
    pub fn set(&mut self, session: u32, stash: &AccountId, value: V)
        requires
            old(self).wf(),
        ensures
            final(self).wf(),
            final(self)@ == old(self)@.insert((session as int, stash@), value),
    {
        let e = SessionEntry { session, stash: stash.clone(), value };
        let ghost k = (session as int, stash@);
        let ghost s0 = self.entries@;
        match self.find(session, stash) {
            Some(i) => {
                proof {
                    lemma_map_of_update(s0, i as int, e);
                }
                self.entries[i] = e;
            },
            None => {
                self.entries.push(e);
                proof {
                    assert(self.entries@.drop_last() =~= s0);
                    assert(map_of(self.entries@) == map_of(s0).insert(k, value));
                    assert forall|p: int, q: int|
                        0 <= p < q < self.entries@.len() implies key_of(
                        #[trigger] self.entries@[p],
                    ) != key_of(#[trigger] self.entries@[q]) by {
                        if q == self.entries@.len() - 1 {
                            assert(key_of(self.entries@[p]) == key_of(s0[p]));
                        } else {
                            assert(key_of(self.entries@[p]) == key_of(s0[p]));
                            assert(key_of(self.entries@[q]) == key_of(s0[q]));
                        }
                    }
                }
            },
        }
    }

    /// Drop the record stored under (session, stash), if any.
    pub fn remove(&mut self, session: u32, stash: &AccountId)
        requires
            old(self).wf(),
        ensures
            final(self).wf(),
            final(self)@ == old(self)@.remove((session as int, stash@)),
    {
        let ghost k = (session as int, stash@);
        let ghost s0 = self.entries@;
        match self.find(session, stash) {
            Some(i) => {
                proof {
                    lemma_map_of_remove(s0, i as int);
                }
                self.entries.remove(i);
            },
            None => {
                proof {
                    lemma_map_of_props(s0);
                    if map_of(s0).contains_key(k) {
                        let i = choose|i: int| 0 <= i < s0.len() && key_of(s0[i]) == k;
                        assert(key_of(s0[i]) == k);
                    }
                    assert(map_of(s0) =~= map_of(s0).remove(k));
                }
            },
        }
    }
}

} // verus!
