//! `NameMap`: a map from names to values that keeps its entries in the
//! order they were first inserted. Every name occurs at most once.

use vstd::prelude::*;

verus! {

/// The map that a sequence of (name, value) entries stands for.
pub open spec fn entries_map<V>(s: Seq<(String, V)>) -> Map<Seq<char>, V>
    decreases s.len(),
{
    if s.len() == 0 {
        Map::empty()
    } else {
        entries_map(s.drop_last()).insert(s.last().0@, s.last().1)
    }
}

/// No name occurs twice among the entries.
pub open spec fn distinct_names<V>(s: Seq<(String, V)>) -> bool {
    forall|i: int, j: int| 0 <= i < s.len() && 0 <= j < s.len() && i != j ==> s[i].0@ != s[j].0@
}

pub proof fn lemma_entries_map<V>(s: Seq<(String, V)>)
    requires
        distinct_names(s),
    ensures
        forall|k: Seq<char>| #[trigger] entries_map(s).contains_key(k) <==> exists|i: int|
            0 <= i < s.len() && s[i].0@ == k,
        forall|i: int| 0 <= i < s.len() ==> #[trigger] entries_map(s)[s[i].0@] == s[i].1,
        entries_map(s).dom().finite(),
        entries_map(s).dom().len() == s.len(),
    decreases s.len(),
{
    if s.len() > 0 {
        let p = s.drop_last();
        assert(distinct_names(p));
        lemma_entries_map(p);
        assert forall|k: Seq<char>| #[trigger] entries_map(s).contains_key(k) <==> exists|i: int|
            0 <= i < s.len() && s[i].0@ == k by {
            if entries_map(s).contains_key(k) && k != s.last().0@ {
                let i = choose|i: int| 0 <= i < p.len() && p[i].0@ == k;
                assert(s[i].0@ == k);
            }
            if exists|i: int| 0 <= i < s.len() && s[i].0@ == k {
                let i = choose|i: int| 0 <= i < s.len() && s[i].0@ == k;
                if i < s.len() - 1 {
                    assert(p[i].0@ == k);
                }
            }
        }
        assert forall|i: int| 0 <= i < s.len() implies #[trigger] entries_map(s)[s[i].0@] == s[i].1 by {
            if i < s.len() - 1 {
                assert(p[i] == s[i]);
                assert(s[i].0@ != s[s.len() - 1].0@);
            }
        }
        assert(!entries_map(p).contains_key(s.last().0@)) by {
            if entries_map(p).contains_key(s.last().0@) {
                let i = choose|i: int| 0 <= i < p.len() && p[i].0@ == s.last().0@;
                assert(s[i].0@ == s[s.len() - 1].0@);
            }
        }
    }
}

proof fn lemma_entries_map_update<V>(s: Seq<(String, V)>, i: int, e: (String, V))
    requires
        distinct_names(s),
        0 <= i < s.len(),
        e.0@ == s[i].0@,
    ensures
        entries_map(s.update(i, e)) == entries_map(s).insert(e.0@, e.1),
        distinct_names(s.update(i, e)),
{
    let t = s.update(i, e);
    assert(distinct_names(t)) by {
        assert forall|a: int, b: int| 0 <= a < t.len() && 0 <= b < t.len() && a != b implies t[a].0@ != t[b].0@ by {
            assert(t[a].0@ == s[a].0@);
            assert(t[b].0@ == s[b].0@);
        }
    }
    lemma_entries_map(s);
    lemma_entries_map(t);
    assert(entries_map(t) =~= entries_map(s).insert(e.0@, e.1)) by {
        assert forall|k: Seq<char>| #[trigger] entries_map(t).contains_key(k) <==> entries_map(s).insert(e.0@, e.1).contains_key(k) by {
            if entries_map(t).contains_key(k) {
                let j = choose|j: int| 0 <= j < t.len() && t[j].0@ == k;
                assert(s[j].0@ == k);
            }
            if entries_map(s).contains_key(k) {
                let j = choose|j: int| 0 <= j < s.len() && s[j].0@ == k;
                assert(t[j].0@ == k);
            }
            assert(t[i].0@ == e.0@);
        }
        assert forall|k: Seq<char>| #[trigger] entries_map(t).contains_key(k) implies entries_map(t)[k] == entries_map(s).insert(e.0@, e.1)[k] by {
            let j = choose|j: int| 0 <= j < t.len() && t[j].0@ == k;
            assert(entries_map(t)[t[j].0@] == t[j].1);
            if j != i {
                assert(entries_map(s)[s[j].0@] == s[j].1);
            }
        }
    }
}

proof fn lemma_entries_map_remove<V>(s: Seq<(String, V)>, i: int)
    requires
        distinct_names(s),
        0 <= i < s.len(),
    ensures
        entries_map(s.remove(i)) == entries_map(s).remove(s[i].0@),
        distinct_names(s.remove(i)),
{
    let t = s.remove(i);
    assert(distinct_names(t)) by {
        assert forall|a: int, b: int| 0 <= a < t.len() && 0 <= b < t.len() && a != b implies t[a].0@ != t[b].0@ by {
            let sa = if a < i { a } else { a + 1 };
            let sb = if b < i { b } else { b + 1 };
            assert(t[a] == s[sa]);
            assert(t[b] == s[sb]);
        }
    }
    lemma_entries_map(s);
    lemma_entries_map(t);
    let k0 = s[i].0@;
    assert(entries_map(t) =~= entries_map(s).remove(k0)) by {
        assert forall|k: Seq<char>| #[trigger] entries_map(t).contains_key(k) <==> entries_map(s).remove(k0).contains_key(k) by {
            if entries_map(t).contains_key(k) {
                let j = choose|j: int| 0 <= j < t.len() && t[j].0@ == k;
                let sj = if j < i { j } else { j + 1 };
                assert(t[j] == s[sj]);
                assert(s[sj].0@ != k0);
            }
            if entries_map(s).contains_key(k) && k != k0 {
                let j = choose|j: int| 0 <= j < s.len() && s[j].0@ == k;
                if j < i {
                    assert(t[j] == s[j]);
                } else {
                    assert(t[j - 1] == s[j]);
                }
            }
        }
        assert forall|k: Seq<char>| #[trigger] entries_map(t).contains_key(k) implies entries_map(t)[k] == entries_map(s).remove(k0)[k] by {
            let j = choose|j: int| 0 <= j < t.len() && t[j].0@ == k;
            let sj = if j < i { j } else { j + 1 };
            assert(t[j] == s[sj]);
            assert(entries_map(t)[t[j].0@] == t[j].1);
            assert(entries_map(s)[s[sj].0@] == s[sj].1);
        }
    }
}

/// A map from names to values, kept in insertion order.
#[derive(Debug, PartialEq)]
pub struct NameMap<V> {
    entries: Vec<(String, V)>,
}

impl<V> View for NameMap<V> {
    type V = Map<Seq<char>, V>;

    closed spec fn view(&self) -> Map<Seq<char>, V> {
        entries_map(self.entries@)
    }
}

impl<V> NameMap<V> {
    #[verifier::type_invariant]
    closed spec fn inv(&self) -> bool {
        distinct_names(self.entries@)
    }

    /// The entries, in the order their names were first inserted.
    pub closed spec fn entry_seq(&self) -> Seq<(String, V)> {
        self.entries@
    }

    /// An empty map.
    pub fn New() -> (m: Self)
        ensures
            m@ == Map::<Seq<char>, V>::empty(),
            m.entry_seq().len() == 0,
            distinct_names(m.entry_seq()),
    {
        NameMap { entries: Vec::new() }
    }

    /// Number of names in the map.
    pub fn Len(&self) -> (n: usize)
        ensures
            n == self.entry_seq().len(),
            n == self@.dom().len(),
            distinct_names(self.entry_seq()),
            self@ == entries_map(self.entry_seq()),
    {
        proof { use_type_invariant(self); lemma_entries_map(self.entries@); }
        self.entries.len()
    }

    /// Position of `name` among the entries, if it is there.
    fn Position(&self, name: &str) -> (r: Option<usize>)
        ensures
            match r {
                Some(i) => i < self.entry_seq().len() && self.entry_seq()[i as int].0@ == name@,
                None => !self@.contains_key(name@),
            },
    {
        proof { use_type_invariant(self); lemma_entries_map(self.entries@); }
        let key = name.to_owned();
        let mut i: usize = 0;
        while i < self.entries.len()
            invariant
                i <= self.entries@.len(),
                forall|j: int| 0 <= j < i ==> self.entries@[j].0@ != name@,
                key@ == name@,
            decreases self.entries@.len() - i,
        {
            if self.entries[i].0 == key {
                return Some(i);
            }
            i = i + 1;
        }
        None
    }

    /// The value bound to `name`.
    pub fn Get(&self, name: &str) -> (r: Option<&V>)
        ensures
            r == if self@.contains_key(name@) { Some(&self@[name@]) } else { None::<&V> },
    {
        proof { use_type_invariant(self); lemma_entries_map(self.entries@); }
        match self.Position(name) {
            Some(i) => Some(&self.entries[i].1),
            None => None,
        }
    }

    /// True when `name` is bound.
    pub fn ContainsKey(&self, name: &str) -> (b: bool)
        ensures
            b == self@.contains_key(name@),
    {
        proof { use_type_invariant(self); lemma_entries_map(self.entries@); }
        self.Position(name).is_some()
    }

    /// Binds `name` to `value`, replacing an earlier binding of the name in
    /// place; a new name goes after all others.
    pub fn Insert(&mut self, name: &str, value: V)
        ensures
            final(self)@ == old(self)@.insert(name@, value),
            old(self)@.contains_key(name@) ==> final(self).entry_seq().len() == old(self).entry_seq().len(),
            !old(self)@.contains_key(name@) ==> final(self).entry_seq() == old(self).entry_seq().push((final(self).entry_seq().last().0, value)),
    {
        proof { use_type_invariant(&*self); lemma_entries_map(self.entries@); }
        let key = name.to_owned();
        let pos = self.Position(name);
        let mut entries: Vec<(String, V)> = Vec::new();
        std::mem::swap(&mut entries, &mut self.entries);
        match pos {
            Some(i) => {
                proof { lemma_entries_map_update(entries@, i as int, (key, value)); }
                entries.set(i, (key, value));
                self.entries = entries;
            }
            None => {
                let ghost s = entries@;
                proof {
                    let t = s.push((key, value));
                    assert(t.drop_last() =~= s);
                    assert(distinct_names(t)) by {
                        assert forall|a: int, b: int| 0 <= a < t.len() && 0 <= b < t.len() && a != b implies t[a].0@ != t[b].0@ by {
                            if a == s.len() as int {
                                assert(t[b] == s[b]);
                            } else if b == s.len() as int {
                                assert(t[a] == s[a]);
                            } else {
                                assert(t[a] == s[a] && t[b] == s[b]);
                            }
                        }
                    }
                }
                entries.push((key, value));
                assert(entries@.drop_last() =~= s);
                self.entries = entries;
            }
        }
    }

    /// Drops the binding of `name`, if there is one; the other entries keep
    /// their order.
    pub fn Remove(&mut self, name: &str)
        ensures
            final(self)@ == old(self)@.remove(name@),
    {
        proof { use_type_invariant(&*self); lemma_entries_map(self.entries@); }
        match self.Position(name) {
            Some(i) => {
                let mut entries: Vec<(String, V)> = Vec::new();
                std::mem::swap(&mut entries, &mut self.entries);
                proof { lemma_entries_map_remove(entries@, i as int); }
                entries.remove(i);
                self.entries = entries;
            }
            None => {
                assert(old(self)@.remove(name@) =~= old(self)@);
            }
        }
    }

    /// The name and value at position `i`.
    pub fn EntryAt(&self, i: usize) -> (r: (&String, &V))
        requires
            i < self.entry_seq().len(),
        ensures
            *r.0 == self.entry_seq()[i as int].0,
            *r.1 == self.entry_seq()[i as int].1,
            self@.contains_key(r.0@),
            self@[r.0@] == *r.1,
            distinct_names(self.entry_seq()),
    {
        proof { use_type_invariant(self); lemma_entries_map(self.entries@); }
        (&self.entries[i].0, &self.entries[i].1)
    }
}

impl<V: Copy> NameMap<V> {
    /// A copy of the map, entry for entry.
    pub fn Duplicate(&self) -> (r: Self)
        ensures
            r@ == self@,
            r.entry_seq() == self.entry_seq(),
    {
        proof { use_type_invariant(self); }
        let mut out: Vec<(String, V)> = Vec::new();
        let mut i: usize = 0;
        while i < self.entries.len()
            invariant
                i <= self.entries@.len(),
                out@ == self.entries@.subrange(0, i as int),
                distinct_names(self.entries@),
            decreases self.entries@.len() - i,
        {
            let k = self.entries[i].0.clone();
            let v = self.entries[i].1;
            out.push((k, v));
            i = i + 1;
            assert(out@ =~= self.entries@.subrange(0, i as int));
        }
        assert(out@ =~= self.entries@);
        NameMap { entries: out }
    }
}

impl<V: Clone> Clone for NameMap<V> {
    fn clone(&self) -> (r: Self)
        ensures
            r.entry_seq().len() == self.entry_seq().len(),
            forall|i: int| 0 <= i < self.entry_seq().len() ==> #[trigger] r.entry_seq()[i].0 == self.entry_seq()[i].0
                && cloned::<V>(self.entry_seq()[i].1, r.entry_seq()[i].1),
    {
        proof { use_type_invariant(self); }
        let mut out: Vec<(String, V)> = Vec::new();
        let mut i: usize = 0;
        while i < self.entries.len()
            invariant
                i <= self.entries@.len(),
                out@.len() == i,
                distinct_names(self.entries@),
                forall|j: int| 0 <= j < i ==> #[trigger] out@[j].0 == self.entries@[j].0
                    && cloned::<V>(self.entries@[j].1, out@[j].1),
            decreases self.entries@.len() - i,
        {
            let k = self.entries[i].0.clone();
            let v = self.entries[i].1.clone();
            out.push((k, v));
            i = i + 1;
        }
        assert(distinct_names(out@)) by {
            assert forall|a: int, b: int| 0 <= a < out@.len() && 0 <= b < out@.len() && a != b implies out@[a].0@ != out@[b].0@ by {
                assert(out@[a].0 == self.entries@[a].0);
                assert(out@[b].0 == self.entries@[b].0);
            }
        }
        NameMap { entries: out }
    }
}

} // verus!
