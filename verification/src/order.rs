//! The order of names: lexicographic by character, the order in which
//! `String`s compare. Sorted, duplicate-free lists of names are kept with it.

use vstd::prelude::*;
use crate::text::chars_of;

verus! {

/// `a` comes strictly before `b`: at the first place where they differ,
/// `a` has the smaller character, or `a` is a proper prefix of `b`.
pub open spec fn lex_lt(a: Seq<char>, b: Seq<char>) -> bool
    decreases a.len(),
{
    if a.len() == 0 {
        b.len() > 0
    } else if b.len() == 0 {
        false
    } else if a[0] != b[0] {
        a[0] < b[0]
    } else {
        lex_lt(a.drop_first(), b.drop_first())
    }
}

/// No name comes before itself.
pub proof fn lemma_lex_irreflexive(a: Seq<char>)
    ensures
        !lex_lt(a, a),
    decreases a.len(),
{
    if a.len() > 0 {
        lemma_lex_irreflexive(a.drop_first());
    }
}

/// Coming before is transitive.
pub proof fn lemma_lex_transitive(a: Seq<char>, b: Seq<char>, c: Seq<char>)
    requires
        lex_lt(a, b),
        lex_lt(b, c),
    ensures
        lex_lt(a, c),
    decreases a.len(),
{
    if a.len() > 0 && b.len() > 0 && c.len() > 0 {
        if a[0] == b[0] && b[0] == c[0] {
            lemma_lex_transitive(a.drop_first(), b.drop_first(), c.drop_first());
        }
    }
}

/// Of two different names, one comes before the other.
pub proof fn lemma_lex_total(a: Seq<char>, b: Seq<char>)
    requires
        a != b,
    ensures
        lex_lt(a, b) || lex_lt(b, a),
    decreases a.len(),
{
    if a.len() > 0 && b.len() > 0 {
        if a[0] == b[0] {
            if a.drop_first() == b.drop_first() {
                assert(a =~= seq![a[0]] + a.drop_first());
                assert(b =~= seq![b[0]] + b.drop_first());
            }
            lemma_lex_total(a.drop_first(), b.drop_first());
        }
    } else if a.len() == 0 && b.len() == 0 {
        assert(a =~= b);
    }
}

/// The views of a list of names.
pub open spec fn names_view(v: Seq<String>) -> Seq<Seq<char>> {
    Seq::new(v.len(), |i: int| v[i]@)
}

/// Every name comes strictly before the ones after it: sorted, and so
/// without repeats.
pub open spec fn strictly_sorted(s: Seq<Seq<char>>) -> bool {
    forall|i: int, j: int| 0 <= i < j < s.len() ==> lex_lt(#[trigger] s[i], #[trigger] s[j])
}

/// The set of names in a list.
pub open spec fn name_set(s: Seq<Seq<char>>) -> Set<Seq<char>> {
    s.to_set()
}

/// Two strictly sorted lists with the same names are the same list: a set
/// of names has one sorted listing.
pub proof fn lemma_sorted_unique(a: Seq<Seq<char>>, b: Seq<Seq<char>>)
    requires
        strictly_sorted(a),
        strictly_sorted(b),
        a.to_set() == b.to_set(),
    ensures
        a == b,
    decreases a.len(),
{
    if a.len() == 0 {
        if b.len() > 0 {
            assert(b.to_set().contains(b[0]));
        }
        assert(a =~= b);
    } else if b.len() == 0 {
        assert(a.to_set().contains(a[0]));
    } else {
        assert(a.to_set().contains(a[0]));
        assert(b.to_set().contains(b[0]));
        let i = choose|i: int| 0 <= i < b.len() && b[i] == a[0];
        let j = choose|j: int| 0 <= j < a.len() && a[j] == b[0];
        if a[0] != b[0] {
            assert(i > 0 && j > 0);
            assert(lex_lt(b[0], b[i]));
            assert(lex_lt(a[0], a[j]));
            lemma_lex_transitive(a[0], b[0], a[0]);
            lemma_lex_irreflexive(a[0]);
        }
        let ra = a.drop_first();
        let rb = b.drop_first();
        assert(strictly_sorted(ra)) by {
            assert forall|x: int, y: int| 0 <= x < y < ra.len() implies lex_lt(#[trigger] ra[x], #[trigger] ra[y]) by {
                assert(ra[x] == a[x + 1] && ra[y] == a[y + 1]);
            }
        }
        assert(strictly_sorted(rb)) by {
            assert forall|x: int, y: int| 0 <= x < y < rb.len() implies lex_lt(#[trigger] rb[x], #[trigger] rb[y]) by {
                assert(rb[x] == b[x + 1] && rb[y] == b[y + 1]);
            }
        }
        assert(ra.to_set() =~= rb.to_set()) by {
            assert forall|x: Seq<char>| ra.to_set().contains(x) <==> rb.to_set().contains(x) by {
                if ra.to_set().contains(x) {
                    let k = choose|k: int| 0 <= k < ra.len() && ra[k] == x;
                    assert(a[k + 1] == x);
                    assert(lex_lt(a[0], x));
                    assert(a.to_set().contains(x));
                    let m = choose|m: int| 0 <= m < b.len() && b[m] == x;
                    if m == 0 {
                        lemma_lex_irreflexive(x);
                    }
                    assert(rb[m - 1] == x);
                }
                if rb.to_set().contains(x) {
                    let k = choose|k: int| 0 <= k < rb.len() && rb[k] == x;
                    assert(b[k + 1] == x);
                    assert(lex_lt(b[0], x));
                    assert(b.to_set().contains(x));
                    let m = choose|m: int| 0 <= m < a.len() && a[m] == x;
                    if m == 0 {
                        lemma_lex_irreflexive(x);
                    }
                    assert(ra[m - 1] == x);
                }
            }
        }
        lemma_sorted_unique(ra, rb);
        assert(a =~= seq![a[0]] + ra);
        assert(b =~= seq![b[0]] + rb);
    }
}

/// Where a name goes in a sorted list: after the names before it.
pub open spec fn spot(q: Seq<Seq<char>>, x: Seq<char>) -> int
    decreases q.len(),
{
    if q.len() == 0 {
        0
    } else if lex_lt(q.last(), x) {
        q.len() as int
    } else {
        spot(q.drop_last(), x)
    }
}

proof fn lemma_spot(q: Seq<Seq<char>>, x: Seq<char>)
    requires
        strictly_sorted(q),
        !q.contains(x),
    ensures
        0 <= spot(q, x) <= q.len(),
        forall|j: int| 0 <= j < spot(q, x) ==> lex_lt(#[trigger] q[j], x),
        forall|j: int| spot(q, x) <= j < q.len() ==> lex_lt(x, #[trigger] q[j]),
    decreases q.len(),
{
    if q.len() > 0 {
        let last = q.last();
        if lex_lt(last, x) {
            assert forall|j: int| 0 <= j < q.len() implies lex_lt(#[trigger] q[j], x) by {
                if j < q.len() - 1 {
                    lemma_lex_transitive(q[j], last, x);
                }
            }
        } else {
            assert(last != x);
            lemma_lex_total(last, x);
            let r = q.drop_last();
            assert(strictly_sorted(r)) by {
                assert forall|a: int, b: int| 0 <= a < b < r.len() implies lex_lt(#[trigger] r[a], #[trigger] r[b]) by {
                    assert(r[a] == q[a] && r[b] == q[b]);
                }
            }
            assert(!r.contains(x)) by {
                if r.contains(x) {
                    let j = choose|j: int| 0 <= j < r.len() && r[j] == x;
                    assert(q[j] == x);
                }
            }
            lemma_spot(r, x);
            assert forall|j: int| 0 <= j < spot(q, x) implies lex_lt(#[trigger] q[j], x) by {
                assert(q[j] == r[j]);
            }
            assert forall|j: int| spot(q, x) <= j < q.len() implies lex_lt(x, #[trigger] q[j]) by {
                if j < q.len() - 1 {
                    assert(q[j] == r[j]);
                }
            }
        }
    }
}

/// A finite set of names has a sorted listing.
pub proof fn lemma_sorted_listing_exists(s: Set<Seq<char>>)
    requires
        s.finite(),
    ensures
        exists|q: Seq<Seq<char>>| strictly_sorted(q) && q.to_set() == s,
    decreases s.len(),
{
    if s.len() == 0 {
        let q = Seq::<Seq<char>>::empty();
        assert(q.to_set() =~= s);
        assert(strictly_sorted(q));
    } else {
        let x = s.choose();
        let s0 = s.remove(x);
        lemma_sorted_listing_exists(s0);
        let q0 = choose|q: Seq<Seq<char>>| strictly_sorted(q) && q.to_set() == s0;
        assert(!q0.contains(x)) by {
            if q0.contains(x) {
                assert(q0.to_set().contains(x));
            }
        }
        lemma_spot(q0, x);
        let k = spot(q0, x);
        let q = q0.insert(k, x);
        assert forall|a: int, b: int| 0 <= a < b < q.len() implies lex_lt(#[trigger] q[a], #[trigger] q[b]) by {
            if b < k {
                assert(q[a] == q0[a] && q[b] == q0[b]);
            } else if b == k {
                assert(q[a] == q0[a]);
            } else if a == k {
                assert(q[b] == q0[b - 1]);
            } else if a < k {
                assert(q[a] == q0[a] && q[b] == q0[b - 1]);
                lemma_lex_transitive(q0[a], x, q0[b - 1]);
            } else {
                assert(q[a] == q0[a - 1] && q[b] == q0[b - 1]);
            }
        }
        assert(q.to_set() =~= s) by {
            assert forall|y: Seq<char>| q.to_set().contains(y) <==> s.contains(y) by {
                if q.to_set().contains(y) {
                    let j = choose|j: int| 0 <= j < q.len() && q[j] == y;
                    if j < k {
                        assert(q0[j] == y);
                        assert(q0.to_set().contains(y));
                    } else if j > k {
                        assert(q0[j - 1] == y);
                        assert(q0.to_set().contains(y));
                    }
                }
                if s.contains(y) {
                    if y == x {
                        assert(q[k] == y);
                    } else {
                        assert(s0.contains(y));
                        assert(q0.to_set().contains(y));
                        let j = choose|j: int| 0 <= j < q0.len() && q0[j] == y;
                        if j < k {
                            assert(q[j] == y);
                        } else {
                            assert(q[j + 1] == y);
                        }
                    }
                }
            }
        }
    }
}

/// Whether `a` comes strictly before `b`.
pub fn text_less(a: &str, b: &str) -> (r: bool)
    ensures
        r == lex_lt(a@, b@),
{
    let x = chars_of(a);
    let y = chars_of(b);
    let mut i: usize = 0;
    assert(a@.skip(0) =~= a@);
    assert(b@.skip(0) =~= b@);
    while i < x.len() && i < y.len()
        invariant
            i <= x@.len(),
            i <= y@.len(),
            x@ == a@,
            y@ == b@,
            lex_lt(a@, b@) == lex_lt(a@.skip(i as int), b@.skip(i as int)),
        decreases x@.len() - i,
    {
        assert(a@.skip(i as int).drop_first() =~= a@.skip(i + 1));
        assert(b@.skip(i as int).drop_first() =~= b@.skip(i + 1));
        if x[i] != y[i] {
            return x[i] < y[i];
        }
        i = i + 1;
    }
    i == x.len() && i < y.len()
}

/// Puts `name` into a strictly sorted list, where it belongs; a name that
/// is already there leaves the list as it was.
pub fn insert_sorted(out: &mut Vec<String>, name: &str)
    requires
        strictly_sorted(names_view(old(out)@)),
    ensures
        strictly_sorted(names_view(final(out)@)),
        name_set(names_view(final(out)@)) == name_set(names_view(old(out)@)).insert(name@),
{
    let ghost s0 = names_view(out@);
    let mut i: usize = 0;
    while i < out.len()
        invariant
            i <= out@.len(),
            out@ == old(out)@,
            s0 == names_view(out@),
            strictly_sorted(s0),
            forall|j: int| 0 <= j < i ==> lex_lt(#[trigger] s0[j], name@),
        ensures
            i <= out@.len(),
            out@ == old(out)@,
            i < out@.len() ==> lex_lt(name@, s0[i as int]),
            forall|j: int| 0 <= j < i ==> lex_lt(#[trigger] s0[j], name@),
        decreases out@.len() - i,
    {
        if !text_less(out[i].as_str(), name) {
            if !text_less(name, out[i].as_str()) {
                proof {
                    if s0[i as int] != name@ {
                        lemma_lex_total(s0[i as int], name@);
                    }
                    assert(s0.to_set().insert(name@) =~= s0.to_set()) by {
                        assert(s0[i as int] == name@);
                    }
                }
                return;
            }
            break;
        }
        i = i + 1;
    }
    let ghost k = i as int;
    out.insert(i, name.to_owned());
    proof {
        let s1 = names_view(out@);
        assert(s1 =~= s0.insert(k, name@));
        assert forall|a: int, b: int| 0 <= a < b < s1.len() implies lex_lt(#[trigger] s1[a], #[trigger] s1[b]) by {
            if b < k {
                assert(s1[a] == s0[a] && s1[b] == s0[b]);
            } else if b == k {
                assert(s1[a] == s0[a]);
            } else if a == k {
                assert(s1[b] == s0[b - 1]);
                if b - 1 > k {
                    lemma_lex_transitive(name@, s0[k], s0[b - 1]);
                }
            } else if a < k {
                assert(s1[a] == s0[a] && s1[b] == s0[b - 1]);
            } else {
                assert(s1[a] == s0[a - 1] && s1[b] == s0[b - 1]);
            }
        }
        assert(s1.to_set() =~= s0.to_set().insert(name@)) by {
            assert forall|x: Seq<char>| s1.to_set().contains(x) <==> s0.to_set().insert(name@).contains(x) by {
                if s1.to_set().contains(x) {
                    let j = choose|j: int| 0 <= j < s1.len() && s1[j] == x;
                    if j < k {
                        assert(s0[j] == x);
                    } else if j > k {
                        assert(s0[j - 1] == x);
                    }
                }
                if s0.to_set().contains(x) {
                    let j = choose|j: int| 0 <= j < s0.len() && s0[j] == x;
                    if j < k {
                        assert(s1[j] == x);
                    } else {
                        assert(s1[j + 1] == x);
                    }
                }
                if x == name@ {
                    assert(s1[k] == x);
                }
            }
        }
    }
}

} // verus!
