//! Incremental reconciliation of fetched records against a cache.
//!
//! Both inputs are time-ordered sequences. With an empty cache every
//! fetched record is new. Otherwise the fetched sequence is scanned for
//! the first record at or after the cache's last timestamp: nothing new
//! when there is none, else the suffix from that point. Whether the
//! matching record itself counts as new is a deliberate, explicit
//! policy choice rather than a silent default, so callers name it.

use crate::records::{Reward, StakeChange};
use crate::timestamp::Timestamp;
use vstd::prelude::*;

verus! {

/// A record that sits at a point in time.
pub trait Timestamped: Sized {
    /// The record's position in time.
    spec fn ts(self) -> Timestamp;

    /// Reads the record's timestamp.
    fn timestamp_of(&self) -> (t: Timestamp)
        ensures
            t == self.ts(),
    ;
}

impl Timestamped for StakeChange {
    open spec fn ts(self) -> Timestamp {
        self.timestamp
    }

    fn timestamp_of(&self) -> (t: Timestamp) {
        self.timestamp
    }
}

impl Timestamped for Reward {
    open spec fn ts(self) -> Timestamp {
        self.date
    }

    fn timestamp_of(&self) -> (t: Timestamp) {
        self.date
    }
}

/// What to do with the first fetched record at or after the cache's
/// last timestamp: drop it and keep only what follows, or keep it too.
#[derive(PartialEq, Eq, Structural, Clone, Copy, Debug)]
pub enum BoundaryPolicy {
    SkipFirstMatch,
    KeepFromMatch,
}

/// Whether any record of the sequence is at or after `last`.
pub open spec fn has_at_or_after<T: Timestamped>(s: Seq<T>, last: Timestamp) -> bool {
    exists|k: int| 0 <= k < s.len() && (#[trigger] s[k]).ts().spec_ge(last)
}

/// The position of the first record at or after `last`, or the length
/// of the sequence when there is none.
pub open spec fn first_at_or_after<T: Timestamped>(s: Seq<T>, last: Timestamp) -> int
    decreases s.len(),
{
    if s.len() == 0 {
        0
    } else if s[0].ts().spec_ge(last) {
        0
    } else {
        1 + first_at_or_after(s.skip(1), last)
    }
}

/// What characterises the position of the first record at or after
/// `last`.
pub proof fn lemma_first_at_or_after<T: Timestamped>(s: Seq<T>, last: Timestamp)
    ensures
        0 <= first_at_or_after(s, last) <= s.len(),
        first_at_or_after(s, last) < s.len() ==> s[first_at_or_after(s, last)].ts().spec_ge(last),
        forall|k: int| 0 <= k < first_at_or_after(s, last) ==> !(#[trigger] s[k]).ts().spec_ge(
            last,
        ),
        (first_at_or_after(s, last) < s.len()) == has_at_or_after(s, last),
    decreases s.len(),
{
    if s.len() == 0 {
    } else if s[0].ts().spec_ge(last) {
    } else {
        lemma_first_at_or_after(s.skip(1), last);
        let j = first_at_or_after(s, last);
        assert forall|k: int| 0 <= k < j implies !(#[trigger] s[k]).ts().spec_ge(last) by {
            if k > 0 {
                assert(s.skip(1)[k - 1] == s[k]);
            }
        }
        if has_at_or_after(s, last) {
            let w = choose|k: int| 0 <= k < s.len() && (#[trigger] s[k]).ts().spec_ge(last);
            assert(w > 0);
            assert(s.skip(1)[w - 1] == s[w]);
            assert(has_at_or_after(s.skip(1), last));
        }
        if has_at_or_after(s.skip(1), last) {
            let w = choose|k: int|
                0 <= k < s.skip(1).len() && (#[trigger] s.skip(1)[k]).ts().spec_ge(last);
            assert(s.skip(1)[w] == s[w + 1]);
            assert(has_at_or_after(s, last));
        }
    }
}

/// The new records of a fetched sequence, given the cached one: all of
/// them for an empty cache; none when no fetched record reaches the
/// cache's last timestamp; else the suffix after the first record at or
/// after that timestamp, the record itself kept or dropped by policy.
pub open spec fn reconcile_spec<T: Timestamped>(
    cached: Seq<T>,
    fetched: Seq<T>,
    policy: BoundaryPolicy,
) -> Seq<T> {
    if cached.len() == 0 {
        fetched
    } else {
        let last = cached.last().ts();
        if !has_at_or_after(fetched, last) {
            Seq::<T>::empty()
        } else {
            let j = first_at_or_after(fetched, last);
            match policy {
                BoundaryPolicy::SkipFirstMatch => fetched.skip(j + 1),
                BoundaryPolicy::KeepFromMatch => fetched.skip(j),
            }
        }
    }
}

/// Computes the new records of a fetched batch: exactly the suffix that
/// `reconcile_spec` names; in particular every fetched record when the
/// cache is empty, and none when no fetched record is at or after the
/// cache's last timestamp.
pub fn reconcile<T: Timestamped + Copy>(
    cached: &Vec<T>,
    fetched: &Vec<T>,
    policy: BoundaryPolicy,
) -> (r: Vec<T>)
    ensures
        r@ == reconcile_spec(cached@, fetched@, policy),
        cached@.len() == 0 ==> r@ == fetched@,
        (cached@.len() > 0 && !has_at_or_after(fetched@, cached@.last().ts())) ==> r@
            == Seq::<T>::empty(),
{
    let n = fetched.len();
    let mut start: usize = 0;
    if cached.len() > 0 {
        let last = cached[cached.len() - 1].timestamp_of();
        let mut j: usize = 0;
        let mut found = n;
        while j < n && found == n
            invariant
                j <= n,
                n == fetched@.len(),
                found == n || (found < n && fetched@[found as int].ts().spec_ge(last)),
                found == n ==> forall|k: int|
                    0 <= k < j ==> !(#[trigger] fetched@[k]).ts().spec_ge(last),
                found < n ==> found == j - 1 && forall|k: int|
                    0 <= k < found ==> !(#[trigger] fetched@[k]).ts().spec_ge(last),
            decreases n - j,
        {
            let t = fetched[j].timestamp_of();
            if t.ge(&last) {
                found = j;
            }
            j = j + 1;
        }
        proof {
            lemma_first_at_or_after(fetched@, last);
            let fm = first_at_or_after(fetched@, last);
            if found < n {
                if fm < found {
                    assert(!fetched@[fm].ts().spec_ge(last));
                }
                assert(fm == found);
            } else {
                assert(!has_at_or_after(fetched@, last));
            }
        }
        if found == n {
            return Vec::new();
        }
        start = match policy {
            BoundaryPolicy::SkipFirstMatch => found + 1,
            BoundaryPolicy::KeepFromMatch => found,
        };
    }
    let mut r: Vec<T> = Vec::new();
    let mut i: usize = start;
    while i < n
        invariant
            start <= i <= n,
            n == fetched@.len(),
            r@ =~= fetched@.subrange(start as int, i as int),
        decreases n - i,
    {
        r.push(fetched[i]);
        proof {
            assert(fetched@.subrange(start as int, i as int + 1) =~= fetched@.subrange(
                start as int,
                i as int,
            ).push(fetched@[i as int]));
        }
        i = i + 1;
    }
    proof {
        assert(r@ =~= fetched@.skip(start as int));
    }
    r
}

} // verus!
