//! A registry that makes externally significant identifier strings globally
//! unique: a key can be claimed at most once, and a second claim of the same
//! key is rejected.

use vstd::prelude::*;

use crate::errors::EscrowError;

verus! {

/// The set of identifier keys that have been claimed so far.
pub struct UniquenessRegistry {
    pub claims: Vec<String>,
}

impl UniquenessRegistry {
    /// Whether `key` has already been claimed.
    pub open spec fn contains(self, key: Seq<char>) -> bool {
        exists|i: int| 0 <= i < self.claims@.len() && self.claims@[i]@ == key
    }

    /// No key is stored twice.
    pub open spec fn wf(self) -> bool {
        forall|i: int, j: int|
            0 <= i < j < self.claims@.len() ==> self.claims@[i]@ != self.claims@[j]@
    }

    /// An empty registry: no key is claimed yet.
    pub fn new() -> (reg: Self)
        ensures
            reg.wf(),
            reg.claims@.len() == 0,
            forall|k: Seq<char>| !reg.contains(k),
    {
        UniquenessRegistry { claims: Vec::new() }
    }

    /// Whether `key` has already been claimed.
    pub fn is_claimed(&self, key: &String) -> (r: bool)
        ensures
            r == self.contains(key@),
    {
        let mut i: usize = 0;
        while i < self.claims.len()
            invariant
                i <= self.claims@.len(),
                forall|j: int| 0 <= j < i ==> self.claims@[j]@ != key@,
            decreases self.claims@.len() - i,
        {
            if self.claims[i] == *key {
                return true;
            }
            i = i + 1;
        }
        false
    }

    /// Claims `key` for its caller.  Exactly the keys never claimed before are
    /// accepted; a repeated claim fails with `AlreadyClaimed` and changes
    /// nothing, so of two claims of the same key exactly one succeeds.
    pub fn claim(&mut self, key: String) -> (r: Result<(), EscrowError>)
        requires
            old(self).wf(),
        ensures
            final(self).wf(),
            r.is_ok() <==> !old(self).contains(key@),
            r.is_err() ==> r == Err::<(), EscrowError>(EscrowError::AlreadyClaimed)
                && *final(self) == *old(self),
            r.is_ok() ==> final(self).claims@ == old(self).claims@.push(key),
            final(self).contains(key@),
            forall|k: Seq<char>|
                k != key@ ==> final(self).contains(k) == old(self).contains(k),
    {
        if self.is_claimed(&key) {
            return Err(EscrowError::AlreadyClaimed);
        }
        self.claims.push(key);
        proof {
            let n = old(self).claims@.len() as int;
            assert(self.claims@[n]@ == key@);
            assert forall|k: Seq<char>| k != key@ implies
                self.contains(k) == old(self).contains(k) by {
                if old(self).contains(k) {
                    let i = choose|i: int|
                        0 <= i < old(self).claims@.len() && old(self).claims@[i]@ == k;
                    assert(self.claims@[i]@ == k);
                }
                if self.contains(k) {
                    let i = choose|i: int|
                        0 <= i < self.claims@.len() && self.claims@[i]@ == k;
                    assert(i < n);
                }
            }
        }
        Ok(())
    }
}

} // verus!
