//! Validator identities.
//!
//! A stash account is an opaque on-chain identity: the trackers only ever
//! compare identities for equality, so it is modelled as its raw bytes.

use vstd::prelude::*;

verus! {

/// A validator's on-chain identity (its stash account), held as raw bytes.
#[derive(Debug)]
pub struct AccountId {
    bytes: Vec<u8>,
}

/// The byte views of a sequence of identities.
pub open spec fn account_views(s: Seq<AccountId>) -> Seq<Seq<u8>> {
    s.map_values(|a: AccountId| a@)
}

/// The position of the first occurrence of `x` in `s`, assuming one exists.
pub open spec fn first_index_of(s: Seq<Seq<u8>>, x: Seq<u8>) -> int
    decreases s.len(),
{
    if s.len() == 0 {
        0
    } else if s[0] == x {
        0
    } else {
        1 + first_index_of(s.drop_first(), x)
    }
}

proof fn lemma_first_index_of(s: Seq<Seq<u8>>, x: Seq<u8>, j: int)
    requires
        0 <= j < s.len(),
        s[j] == x,
        forall|k: int| 0 <= k < j ==> s[k] != x,
    ensures
        first_index_of(s, x) == j,
    decreases s.len(),
{
    if j > 0 {
        let d = s.drop_first();
        assert(forall|k: int| 0 <= k < j - 1 ==> d[k] == s[k + 1]);
        lemma_first_index_of(d, x, j - 1);
    }
}

/// The position of `x` in `list`, if it occurs: the first such position.
pub fn position_of(list: &Vec<AccountId>, x: &AccountId) -> (r: Option<usize>)
    ensures
        match r {
            Some(j) => j < list@.len() && account_views(list@).contains(x@) && j as int
                == first_index_of(account_views(list@), x@),
            None => !account_views(list@).contains(x@),
        },
{
    let n = list.len();
    let mut j: usize = 0;
    while j < n
        invariant
            n == list@.len(),
            j <= n,
            forall|k: int| 0 <= k < j ==> account_views(list@)[k] != x@,
        decreases n - j,
    {
        if list[j] == *x {
            proof {
                assert(account_views(list@)[j as int] == x@);
                lemma_first_index_of(account_views(list@), x@, j as int);
            }
            return Some(j);
        }
        assert(account_views(list@)[j as int] != x@);
        j = j + 1;
    }
    proof {
        if account_views(list@).contains(x@) {
            let k = choose|k: int|
                0 <= k < account_views(list@).len() && account_views(list@)[k] == x@;
            assert(account_views(list@)[k] != x@);
        }
    }
    None
}

/// Whether `x` is one of the identities in `list`.
pub fn contains_account(list: &Vec<AccountId>, x: &AccountId) -> (r: bool)
    ensures
        r == account_views(list@).contains(x@),
{
    let n = list.len();
    let mut i: usize = 0;
    while i < n
        invariant
            n == list@.len(),
            i <= n,
            forall|j: int| 0 <= j < i ==> account_views(list@)[j] != x@,
        decreases n - i,
    {
        if list[i] == *x {
            assert(account_views(list@)[i as int] == x@);
            return true;
        }
        assert(account_views(list@)[i as int] != x@);
        i = i + 1;
    }
    proof {
        if account_views(list@).contains(x@) {
            let j = choose|j: int|
                0 <= j < account_views(list@).len() && account_views(list@)[j] == x@;
            assert(account_views(list@)[j] != x@);
        }
    }
    false
}

impl View for AccountId {
    type V = Seq<u8>;

    closed spec fn view(&self) -> Seq<u8> {
        self.bytes@
    }
}

impl AccountId {
    /// Build an identity from its raw bytes.
    pub fn new(bytes: Vec<u8>) -> (r: AccountId)
        ensures
            r@ == bytes@,
    {
        AccountId { bytes }
    }

    /// The raw bytes of the identity.
    pub fn bytes(&self) -> (r: &Vec<u8>)
        ensures
            r@ == self@,
    {
        &self.bytes
    }
}

impl Clone for AccountId {
    fn clone(&self) -> (r: Self)
        ensures
            r@ == self@,
    {
        AccountId { bytes: self.bytes.clone() }
    }
}

impl PartialEq for AccountId {
    fn eq(&self, other: &Self) -> (r: bool) {
        let n = self.bytes.len();
        if n != other.bytes.len() {
            assert(self@ != other@);
            return false;
        }
        let mut i: usize = 0;
        while i < n
            invariant
                n == self.bytes.len(),
                n == other.bytes.len(),
                i <= n,
                forall|j: int| 0 <= j < i ==> self.bytes@[j] == other.bytes@[j],
            decreases n - i,
        {
            if self.bytes[i] != other.bytes[i] {
                assert(self@[i as int] != other@[i as int]);
                return false;
            }
            i = i + 1;
        }
        assert(self@ =~= other@);
        true
    }
}

impl Eq for AccountId {}

impl vstd::std_specs::cmp::PartialEqSpecImpl for AccountId {
    open spec fn obeys_eq_spec() -> bool {
        true
    }

    open spec fn eq_spec(&self, other: &Self) -> bool {
        self@ == other@
    }
}

} // verus!
