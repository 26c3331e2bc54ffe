//! The minimal per-validator state: used where only activity and queued
//! session keys are reported.

use vstd::prelude::*;

use crate::account::AccountId;

verus! {

/// A validator known by its stash, with its activity flags.
#[derive(Debug)]
pub struct Validator {
    pub stash: AccountId,
    pub is_active: bool,
    pub is_queued: bool,
}

impl Validator {
    /// A validator known only by its stash: not active, nothing queued.
    pub fn new(stash: AccountId) -> (r: Validator)
        ensures
            r.stash@ == stash@,
            r.is_active == false,
            r.is_queued == false,
    {
        Validator { stash, is_active: false, is_queued: false }
    }
}

} // verus!
