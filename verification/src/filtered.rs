//! The filtered-result cache.
//!
//! A `Filtered` holds a computed filtered candidate list together with a
//! version stamp that changes on every update. Two independently owned
//! copies — the authoritative one inside the widget state and the snapshot
//! the overlay renders from — are reconciled by [`Filtered::sync`], which
//! compares stamps instead of comparing contents.

use vstd::prelude::*;

verus! {

/// The stamp after one update: the successor, wrapping from the largest
/// stamp back to 1 so that an authoritative stamp is never 0.
pub open spec fn next_stamp(v: u64) -> u64 {
    if v == u64::MAX {
        1
    } else {
        (v + 1) as u64
    }
}

/// A filtered candidate list with a version stamp.
#[derive(Debug, Clone)]
pub struct Filtered {
    /// The candidates that passed the query, in their original order.
    pub options: Vec<String>,
    /// Version stamp: differs from the stamp of every earlier content.
    /// The authoritative copy always carries a stamp of at least 1; a fresh
    /// overlay snapshot carries 0, so the first sync always copies.
    pub updated: u64,
}

/// Element-wise copy of a list of strings.
pub fn clone_strings(v: &Vec<String>) -> (r: Vec<String>)
    ensures
        r@ == v@,
{
    let n = v.len();
    let mut r: Vec<String> = Vec::new();
    let mut i: usize = 0;
    while i < n
        invariant
            n == v@.len(),
            i <= n,
            r@ == v@.take(i as int),
        decreases n - i,
    {
        r.push(v[i].clone());
        i = i + 1;
        proof {
            assert(r@ =~= v@.take(i as int));
        }
    }
    proof {
        assert(v@.take(n as int) =~= v@);
    }
    r
}

impl Filtered {
    /// A cache holding the given result, with the first authoritative stamp.
    pub fn new(options: Vec<String>) -> (r: Self)
        ensures
            r.options == options,
            r.updated == 1,
    {
        Filtered { options, updated: 1 }
    }

    /// An empty snapshot, stamped so that any authoritative copy differs.
    pub fn empty() -> (r: Self)
        ensures
            r.options@ == Seq::<String>::empty(),
            r.updated == 0,
    {
        Filtered { options: Vec::new(), updated: 0 }
    }

    /// Replace the contents and move to a fresh stamp.
    pub fn update(&mut self, options: Vec<String>)
        ensures
            final(self).options == options,
            final(self).updated == next_stamp(old(self).updated),
            final(self).updated != old(self).updated,
            final(self).updated >= 1,
    {
        self.options = options;
        self.updated = if self.updated == u64::MAX {
            1
        } else {
            self.updated + 1
        };
    }

    /// Reconcile `other` with this cache: when the stamps differ, `other`
    /// becomes a copy of this cache; otherwise it is left alone.
    pub fn sync(&self, other: &mut Filtered)
        ensures
            old(other).updated != self.updated ==> final(other).options@ == self.options@
                && final(other).updated == self.updated,
            old(other).updated == self.updated ==> *final(other) == *old(other),
    {
        if other.updated != self.updated {
            other.options = clone_strings(&self.options);
            other.updated = self.updated;
        }
    }
}

} // verus!
