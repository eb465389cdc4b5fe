//! Layer 4 (solver) — the interval domain.
//!
//! Each variable gets an inclusive `[lo, hi]` (`None` on a side means
//! unbounded there), and atomic constraints of the shape `var op const` are
//! turned into interval tightenings. The domain is coarse: it sees that
//! `x >= 0 && x < 10 && x == 15` is contradictory, but not `x + y == y + x`.

use vstd::prelude::*;
use crate::names::{NameMap, distinct_names};

verus! {

/// A closed-or-open integer interval. `None` on either bound means
/// unbounded in that direction.
#[derive(Debug, Clone, Copy, PartialEq, Eq, Structural)]
pub struct Interval {
    pub lo: Option<i64>,
    pub hi: Option<i64>,
}

impl Interval {
    /// `x` lies within the interval.
    pub open spec fn has(self, x: int) -> bool {
        &&& (self.lo matches Some(l) ==> l <= x)
        &&& (self.hi matches Some(h) ==> x <= h)
    }

    /// Both bounds are given and the lower one is above the upper one.
    pub open spec fn empty_spec(self) -> bool {
        self.lo matches Some(l) && self.hi matches Some(h) && l > h
    }

    /// The intersection, bound by bound: the larger lower bound and the
    /// smaller upper bound, an absent bound giving way to a present one.
    pub open spec fn meet_spec(self, other: Interval) -> Interval {
        Interval {
            lo: match (self.lo, other.lo) {
                (None, x) => x,
                (x, None) => x,
                (Some(a), Some(b)) => Some(if a >= b { a } else { b }),
            },
            hi: match (self.hi, other.hi) {
                (None, x) => x,
                (x, None) => x,
                (Some(a), Some(b)) => Some(if a <= b { a } else { b }),
            },
        }
    }

    /// The interval of all integers.
    pub fn Top() -> (r: Self)
        ensures
            r == (Interval { lo: None, hi: None }),
            forall|x: int| #[trigger] r.has(x),
    {
        Self { lo: None, hi: None }
    }

    /// The interval holding `n` alone.
    pub fn Point(n: i64) -> (r: Self)
        ensures
            r == (Interval { lo: Some(n), hi: Some(n) }),
            forall|x: int| #[trigger] r.has(x) <==> x == n,
    {
        Self { lo: Some(n), hi: Some(n) }
    }

    /// `true` if the interval is empty (contains no integer).
    pub fn IsEmpty(&self) -> (b: bool)
        ensures
            b == self.empty_spec(),
            b <==> !exists|x: int| #[trigger] self.has(x),
    {
        proof {
            if !self.empty_spec() {
                let w: int = match self.lo {
                    Some(l) => l as int,
                    None => match self.hi {
                        Some(h) => h as int,
                        None => 0,
                    },
                };
                assert(self.has(w));
            }
        }
        match (self.lo, self.hi) {
            (Some(l), Some(h)) => l > h,
            _ => false,
        }
    }

    /// Tighten by intersecting with another interval: an integer lies in
    /// the result exactly when it lies in both.
    pub fn Meet(&self, other: &Interval) -> (r: Interval)
        ensures
            r == self.meet_spec(*other),
            forall|x: int| #[trigger] r.has(x) <==> self.has(x) && other.has(x),
    {
        Interval {
            lo: match (self.lo, other.lo) {
                (None, x) => x,
                (x, None) => x,
                (Some(a), Some(b)) => Some(if a >= b { a } else { b }),
            },
            hi: match (self.hi, other.hi) {
                (None, x) => x,
                (x, None) => x,
                (Some(a), Some(b)) => Some(if a <= b { a } else { b }),
            },
        }
    }
}

/// The interval recorded for `name`, the whole line when there is none.
pub open spec fn interval_of(m: Map<Seq<char>, Interval>, name: Seq<char>) -> Interval {
    if m.contains_key(name) {
        m[name]
    } else {
        Interval { lo: None, hi: None }
    }
}

/// Some variable has an empty interval.
pub open spec fn has_empty(m: Map<Seq<char>, Interval>) -> bool {
    exists|k: Seq<char>| m.contains_key(k) && #[trigger] m[k].empty_spec()
}

/// The interval has two bounds and more than one integer between them.
pub open spec fn bounded_free(iv: Interval) -> bool {
    iv.lo matches Some(l) && iv.hi matches Some(h) && l < h
}

/// A per-variable interval store. Missing entries stand for the whole line.
#[derive(Debug)]
pub struct IntervalStore {
    map: NameMap<Interval>,
}

impl View for IntervalStore {
    type V = Map<Seq<char>, Interval>;

    closed spec fn view(&self) -> Map<Seq<char>, Interval> {
        self.map@
    }
}

impl IntervalStore {
    /// An empty store.
    pub fn New() -> (s: Self)
        ensures
            s@ == Map::<Seq<char>, Interval>::empty(),
    {
        IntervalStore { map: NameMap::New() }
    }

    /// The interval recorded for `name`.
    pub fn Get(&self, name: &str) -> (r: Interval)
        ensures
            r == interval_of(self@, name@),
    {
        match self.map.Get(name) {
            Some(iv) => *iv,
            None => Interval::Top(),
        }
    }

    /// Meet the current interval for `name` with `other` and record it.
    /// Returns the new interval — the caller checks emptiness to detect
    /// contradiction.
    pub fn Tighten(&mut self, name: &str, other: Interval) -> (r: Interval)
        ensures
            r == interval_of(old(self)@, name@).meet_spec(other),
            final(self)@ == old(self)@.insert(name@, r),
    {
        let cur = self.Get(name);
        let met = cur.Meet(&other);
        self.map.Insert(name, met);
        met
    }

    /// True iff any variable in the store has an empty interval.
    pub fn HasContradiction(&self) -> (b: bool)
        ensures
            b == has_empty(self@),
    {
        let n = self.map.Len();
        let mut i: usize = 0;
        while i < n
            invariant
                n == self.map.entry_seq().len(),
                i <= n,
                self.map@ == crate::names::entries_map(self.map.entry_seq()),
                distinct_names(self.map.entry_seq()),
                forall|j: int| 0 <= j < i ==> !(#[trigger] self.map.entry_seq()[j]).1.empty_spec(),
            decreases n - i,
        {
            let (_name, iv) = self.map.EntryAt(i);
            if iv.IsEmpty() {
                return true;
            }
            i = i + 1;
        }
        proof {
            crate::names::lemma_entries_map(self.map.entry_seq());
            assert forall|k: Seq<char>| self@.contains_key(k) implies !(#[trigger] self@[k]).empty_spec() by {
                let j = choose|j: int| 0 <= j < self.map.entry_seq().len() && self.map.entry_seq()[j].0@ == k;
                assert(self@[self.map.entry_seq()[j].0@] == self.map.entry_seq()[j].1);
            }
        }
        false
    }

    /// Pick a variable whose interval has two bounds and more than one
    /// value, and return `(name, lo, hi)` for enumeration; `None` when every
    /// variable is pinned or unbounded on a side. Which of several such
    /// variables comes back is not part of the contract.
    pub fn PickBoundedFree(&self) -> (r: Option<(String, i64, i64)>)
        ensures
            match r {
                Some((n, l, h)) => self@.contains_key(n@) && self@[n@] == (Interval { lo: Some(l), hi: Some(h) })
                    && l < h,
                None => forall|k: Seq<char>| self@.contains_key(k) ==> !bounded_free(#[trigger] self@[k]),
            },
    {
        let n = self.map.Len();
        let mut i: usize = 0;
        while i < n
            invariant
                n == self.map.entry_seq().len(),
                i <= n,
                self.map@ == crate::names::entries_map(self.map.entry_seq()),
                distinct_names(self.map.entry_seq()),
                forall|j: int| 0 <= j < i ==> !bounded_free((#[trigger] self.map.entry_seq()[j]).1),
            decreases n - i,
        {
            let (name, iv) = self.map.EntryAt(i);
            if let (Some(l), Some(h)) = (iv.lo, iv.hi) {
                if l < h {
                    return Some((name.clone(), l, h));
                }
            }
            i = i + 1;
        }
        proof {
            crate::names::lemma_entries_map(self.map.entry_seq());
            assert forall|k: Seq<char>| self@.contains_key(k) implies !bounded_free(#[trigger] self@[k]) by {
                let j = choose|j: int| 0 <= j < self.map.entry_seq().len() && self.map.entry_seq()[j].0@ == k;
                assert(self@[self.map.entry_seq()[j].0@] == self.map.entry_seq()[j].1);
            }
        }
        None
    }

    /// Every (name, interval) pair of the store, each name once.
    pub fn Iter(&self) -> (r: Vec<(String, Interval)>)
        ensures
            r@.len() == self@.dom().len(),
            distinct_names(r@),
            forall|i: int| 0 <= i < r@.len() ==> self@.contains_key((#[trigger] r@[i]).0@) && self@[r@[i].0@] == r@[i].1,
    {
        let n = self.map.Len();
        let mut out: Vec<(String, Interval)> = Vec::new();
        let mut i: usize = 0;
        while i < n
            invariant
                n == self.map.entry_seq().len(),
                n == self.map@.dom().len(),
                i <= n,
                out@.len() == i,
                self.map@ == crate::names::entries_map(self.map.entry_seq()),
                distinct_names(self.map.entry_seq()),
                forall|j: int| 0 <= j < i ==> (#[trigger] out@[j]).0@ == self.map.entry_seq()[j].0@
                    && out@[j].1 == self.map.entry_seq()[j].1,
            decreases n - i,
        {
            let (name, iv) = self.map.EntryAt(i);
            out.push((name.clone(), *iv));
            i = i + 1;
        }
        proof {
            crate::names::lemma_entries_map(self.map.entry_seq());
            assert forall|a: int, b: int| 0 <= a < out@.len() && 0 <= b < out@.len() && a != b implies out@[a].0@
                != out@[b].0@ by {
                assert(out@[a].0@ == self.map.entry_seq()[a].0@);
                assert(out@[b].0@ == self.map.entry_seq()[b].0@);
            }
            assert forall|j: int| 0 <= j < out@.len() implies self@.contains_key((#[trigger] out@[j]).0@)
                && self@[out@[j].0@] == out@[j].1 by {
                assert(self@[self.map.entry_seq()[j].0@] == self.map.entry_seq()[j].1);
            }
        }
        out
    }
}

} // verus!
