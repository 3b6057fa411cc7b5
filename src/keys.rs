//! Ordered key/value lists: the representation of header and query tables.
//!
//! A table is a sequence of `(key, value)` pairs whose keys are strictly
//! increasing in code-point order. Its meaning is the map from each key to
//! its value; keeping the pairs sorted makes the canonical form used for
//! signing a plain walk over the table.

use vstd::prelude::*;
use crate::text::chars_of;

verus! {

/// Code-point lexicographic order on strings.
pub open spec fn key_lt(a: Seq<char>, b: Seq<char>) -> bool
    decreases a.len(),
{
    if a.len() == 0 {
        b.len() > 0
    } else if b.len() == 0 {
        false
    } else if a[0] != b[0] {
        a[0] < b[0]
    } else {
        key_lt(a.drop_first(), b.drop_first())
    }
}

pub proof fn lemma_key_lt_irreflexive(a: Seq<char>)
    ensures
        !key_lt(a, a),
    decreases a.len(),
{
    if a.len() > 0 {
        lemma_key_lt_irreflexive(a.drop_first());
    }
}

pub proof fn lemma_key_lt_total(a: Seq<char>, b: Seq<char>)
    ensures
        a != b ==> (key_lt(a, b) || key_lt(b, a)),
        !(key_lt(a, b) && key_lt(b, a)),
    decreases a.len(),
{
    if a.len() > 0 && b.len() > 0 && a[0] == b[0] {
        lemma_key_lt_total(a.drop_first(), b.drop_first());
        if a.drop_first() == b.drop_first() {
            assert(a =~= seq![a[0]] + a.drop_first());
            assert(b =~= seq![b[0]] + b.drop_first());
        }
    }
    if a.len() == 0 && b.len() == 0 {
        assert(a =~= b);
    }
}

pub proof fn lemma_key_lt_transitive(a: Seq<char>, b: Seq<char>, c: Seq<char>)
    requires
        key_lt(a, b),
        key_lt(b, c),
    ensures
        key_lt(a, c),
    decreases a.len(),
{
    if a.len() > 0 && b.len() > 0 && c.len() > 0 && a[0] == b[0] && b[0] == c[0] {
        lemma_key_lt_transitive(a.drop_first(), b.drop_first(), c.drop_first());
    }
}

/// Decides `key_lt`.
pub fn key_less(a: &str, b: &str) -> (r: bool)
    ensures
        r == key_lt(a@, b@),
{
    let x = chars_of(a);
    let y = chars_of(b);
    let mut i: usize = 0;
    assert(x@.subrange(0, x@.len() as int) =~= x@);
    assert(y@.subrange(0, y@.len() as int) =~= y@);
    while i < x.len() && i < y.len() && x[i] == y[i]
        invariant
            x@ == a@,
            y@ == b@,
            i <= x@.len(),
            i <= y@.len(),
            key_lt(a@, b@) == key_lt(
                x@.subrange(i as int, x@.len() as int),
                y@.subrange(i as int, y@.len() as int),
            ),
        decreases x@.len() - i,
    {
        assert(x@.subrange(i as int, x@.len() as int).drop_first() =~= x@.subrange(
            i + 1,
            x@.len() as int,
        ));
        assert(y@.subrange(i as int, y@.len() as int).drop_first() =~= y@.subrange(
            i + 1,
            y@.len() as int,
        ));
        i = i + 1;
    }
    if i == x.len() {
        i < y.len()
    } else if i == y.len() {
        false
    } else {
        x[i] < y[i]
    }
}

pub type Entries = Seq<(Seq<char>, Seq<char>)>;

/// The value stored under `k`, searching from the front.
pub open spec fn lookup<K, V>(s: Seq<(K, V)>, k: K) -> Option<V>
    decreases s.len(),
{
    if s.len() == 0 {
        None
    } else if s[0].0 == k {
        Some(s[0].1)
    } else {
        lookup(s.drop_first(), k)
    }
}

/// The map that a table denotes.
pub open spec fn entries_map<K, V>(s: Seq<(K, V)>) -> Map<K, V> {
    Map::new(|k: K| lookup(s, k) is Some, |k: K| lookup(s, k)->Some_0)
}

/// Keys strictly increase from front to back.
pub open spec fn sorted_keys(s: Entries) -> bool {
    forall|i: int, j: int| 0 <= i < j < s.len() ==> key_lt(#[trigger] s[i].0, #[trigger] s[j].0)
}

/// The view of a table held in a `Vec` of string pairs.
pub open spec fn entries_of(v: Seq<(String, String)>) -> Entries {
    Seq::new(v.len(), |i: int| (v[i].0@, v[i].1@))
}

pub proof fn lemma_lookup_absent<K, V>(s: Seq<(K, V)>, k: K)
    requires
        forall|i: int| 0 <= i < s.len() ==> (#[trigger] s[i]).0 != k,
    ensures
        lookup(s, k) is None,
    decreases s.len(),
{
    if s.len() > 0 {
        assert forall|i: int| 0 <= i < s.drop_first().len() implies (
        #[trigger] s.drop_first()[i]).0 != k by {
            assert(s.drop_first()[i] == s[i + 1]);
        }
        lemma_lookup_absent(s.drop_first(), k);
    }
}

pub proof fn lemma_lookup_concat<K, V>(a: Seq<(K, V)>, b: Seq<(K, V)>, k: K)
    ensures
        lookup(a + b, k) == (if lookup(a, k) is Some {
            lookup(a, k)
        } else {
            lookup(b, k)
        }),
    decreases a.len(),
{
    if a.len() == 0 {
        assert(a + b =~= b);
    } else {
        assert((a + b).drop_first() =~= a.drop_first() + b);
        lemma_lookup_concat(a.drop_first(), b, k);
    }
}

/// Places `(k, v)` in a sorted table: replaces the value of an equal key, or
/// inserts the pair where the order puts it.
pub fn put_entry(v: &mut Vec<(String, String)>, k: &str, val: &str)
    requires
        sorted_keys(entries_of(old(v)@)),
    ensures
        sorted_keys(entries_of(final(v)@)),
        entries_map(entries_of(final(v)@)) == entries_map(entries_of(old(v)@)).insert(k@, val@),
{
    let ghost s = entries_of(v@);
    let mut p: usize = 0;
    while p < v.len() && key_less(v[p].0.as_str(), k)
        invariant
            s == entries_of(v@),
            p <= v@.len(),
            forall|i: int| 0 <= i < p ==> key_lt(#[trigger] s[i].0, k@),
        decreases v@.len() - p,
    {
        p = p + 1;
    }
    let ghost pre = s.subrange(0, p as int);
    proof {
        assert forall|i: int| 0 <= i < pre.len() implies (#[trigger] pre[i]).0 != k@ by {
            assert(pre[i] == s[i]);
            lemma_key_lt_irreflexive(k@);
        }
        lemma_lookup_absent(pre, k@);
    }
    if p < v.len() && v[p].0 == k.to_owned() {
        v.set(p, (k.to_owned(), val.to_owned()));
        proof {
            let t = entries_of(v@);
            let post = s.subrange(p + 1, s.len() as int);
            assert(s =~= pre + (seq![s[p as int]] + post));
            assert(t =~= pre + (seq![(k@, val@)] + post));
            assert(sorted_keys(t)) by {
                assert forall|i: int, j: int| 0 <= i < j < t.len() implies key_lt(
                    #[trigger] t[i].0,
                    #[trigger] t[j].0,
                ) by {
                    assert(t[i].0 == s[i].0);
                    assert(t[j].0 == s[j].0);
                }
            }
            assert forall|q: Seq<char>| #[trigger] lookup(t, q) == (if q == k@ {
                Some(val@)
            } else {
                lookup(s, q)
            }) by {
                lemma_lookup_concat(pre, seq![(k@, val@)] + post, q);
                lemma_lookup_concat(pre, seq![s[p as int]] + post, q);
                lemma_lookup_concat(seq![(k@, val@)], post, q);
                lemma_lookup_concat(seq![s[p as int]], post, q);
                if q != k@ {
                    lemma_lookup_absent(seq![(k@, val@)], q);
                    lemma_lookup_absent(seq![s[p as int]], q);
                }
            }
            assert(entries_map(t) =~= entries_map(s).insert(k@, val@));
        }
    } else {
        v.insert(p, (k.to_owned(), val.to_owned()));
        proof {
            let t = entries_of(v@);
            let post = s.subrange(p as int, s.len() as int);
            assert(s =~= pre + post);
            assert(t =~= pre + (seq![(k@, val@)] + post));
            if p < s.len() {
                lemma_key_lt_total(s[p as int].0, k@);
            }
            assert(sorted_keys(t)) by {
                assert forall|i: int, j: int| 0 <= i < j < t.len() implies key_lt(
                    #[trigger] t[i].0,
                    #[trigger] t[j].0,
                ) by {
                    if j < p {
                        assert(t[i] == s[i] && t[j] == s[j]);
                    } else if j == p {
                        assert(t[i] == s[i]);
                    } else if i == p {
                        assert(t[j] == s[j - 1]);
                        if j - 1 > p {
                            lemma_key_lt_transitive(k@, s[p as int].0, s[j - 1].0);
                        }
                    } else if i < p {
                        assert(t[i] == s[i] && t[j] == s[j - 1]);
                    } else {
                        assert(t[i] == s[i - 1] && t[j] == s[j - 1]);
                    }
                }
            }
            assert forall|q: Seq<char>| #[trigger] lookup(t, q) == (if q == k@ {
                Some(val@)
            } else {
                lookup(s, q)
            }) by {
                lemma_lookup_concat(pre, seq![(k@, val@)] + post, q);
                lemma_lookup_concat(pre, post, q);
                lemma_lookup_concat(seq![(k@, val@)], post, q);
                if q != k@ {
                    lemma_lookup_absent(seq![(k@, val@)], q);
                } else {
                    assert forall|i: int| 0 <= i < post.len() implies (#[trigger] post[i]).0
                        != k@ by {
                        assert(post[i] == s[p + i]);
                        if i > 0 {
                            lemma_key_lt_transitive(k@, s[p as int].0, s[p + i].0);
                        }
                        lemma_key_lt_irreflexive(k@);
                    }
                    lemma_lookup_absent(post, q);
                }
            }
            assert(entries_map(t) =~= entries_map(s).insert(k@, val@));
        }
    }
}

/// No key occurs twice.
pub open spec fn distinct_keys<K, V>(s: Seq<(K, V)>) -> bool {
    forall|i: int, j: int| 0 <= i < j < s.len() ==> (#[trigger] s[i]).0 != (#[trigger] s[j]).0
}

pub proof fn lemma_lookup_distinct<K, V>(s: Seq<(K, V)>)
    requires
        distinct_keys(s),
    ensures
        forall|i: int| 0 <= i < s.len() ==> lookup(s, (#[trigger] s[i]).0) == Some(s[i].1),
        forall|n: K|
            #[trigger] lookup(s, n) is Some ==> exists|i: int| 0 <= i < s.len() && s[i].0 == n,
    decreases s.len(),
{
    if s.len() > 0 {
        let t = s.drop_first();
        assert(distinct_keys(t)) by {
            assert forall|i: int, j: int| 0 <= i < j < t.len() implies (#[trigger] t[i]).0 != (
            #[trigger] t[j]).0 by {
                assert(t[i] == s[i + 1] && t[j] == s[j + 1]);
            }
        }
        lemma_lookup_distinct(t);
        assert forall|i: int| 0 <= i < s.len() implies lookup(s, (#[trigger] s[i]).0) == Some(
            s[i].1,
        ) by {
            if i > 0 {
                assert(s[i] == t[i - 1]);
            }
        }
        assert forall|n: K| #[trigger] lookup(s, n) is Some implies exists|i: int|
            0 <= i < s.len() && s[i].0 == n by {
            if s[0].0 != n {
                assert(lookup(t, n) is Some);
                let j = choose|j: int| 0 <= j < t.len() && t[j].0 == n;
                assert(s[j + 1] == t[j]);
            } else {
                assert(s[0].0 == n);
            }
        }
    }
}

/// Two sorted tables that denote the same map are the same table.
pub proof fn lemma_sorted_determined(a: Entries, b: Entries)
    requires
        sorted_keys(a),
        sorted_keys(b),
        entries_map(a) == entries_map(b),
    ensures
        a == b,
    decreases a.len() + b.len(),
{
    assert(distinct_keys(a)) by {
        assert forall|i: int, j: int| 0 <= i < j < a.len() implies (#[trigger] a[i]).0 != (
        #[trigger] a[j]).0 by {
            lemma_key_lt_irreflexive(a[i].0);
        }
    }
    assert(distinct_keys(b)) by {
        assert forall|i: int, j: int| 0 <= i < j < b.len() implies (#[trigger] b[i]).0 != (
        #[trigger] b[j]).0 by {
            lemma_key_lt_irreflexive(b[i].0);
        }
    }
    lemma_lookup_distinct(a);
    lemma_lookup_distinct(b);
    if a.len() == 0 && b.len() == 0 {
        assert(a =~= b);
    } else if a.len() == 0 {
        assert(lookup(b, b[0].0) is Some);
        assert(!entries_map(a).contains_key(b[0].0));
        assert(entries_map(b).contains_key(b[0].0));
    } else if b.len() == 0 {
        assert(lookup(a, a[0].0) is Some);
        assert(entries_map(a).contains_key(a[0].0));
    } else {
        let ka = a[0].0;
        let kb = b[0].0;
        assert(entries_map(a).contains_key(ka));
        assert(entries_map(b).contains_key(kb));
        assert(lookup(b, ka) is Some);
        assert(lookup(a, kb) is Some);
        let i = choose|i: int| 0 <= i < b.len() && b[i].0 == ka;
        let j = choose|j: int| 0 <= j < a.len() && a[j].0 == kb;
        assert(ka == kb) by {
            if i > 0 && j > 0 {
                assert(key_lt(b[0].0, b[i].0));
                assert(key_lt(a[0].0, a[j].0));
                lemma_key_lt_total(ka, kb);
            }
        }
        assert(a[0] == b[0]) by {
            assert(entries_map(a)[ka] == a[0].1);
            assert(entries_map(b)[kb] == b[0].1);
        }
        let ta = a.drop_first();
        let tb = b.drop_first();
        assert(sorted_keys(ta)) by {
            assert forall|x: int, y: int| 0 <= x < y < ta.len() implies key_lt(
                #[trigger] ta[x].0,
                #[trigger] ta[y].0,
            ) by {
                assert(ta[x] == a[x + 1] && ta[y] == a[y + 1]);
            }
        }
        assert(sorted_keys(tb)) by {
            assert forall|x: int, y: int| 0 <= x < y < tb.len() implies key_lt(
                #[trigger] tb[x].0,
                #[trigger] tb[y].0,
            ) by {
                assert(tb[x] == b[x + 1] && tb[y] == b[y + 1]);
            }
        }
        assert(entries_map(ta) =~= entries_map(tb)) by {
            assert forall|q: Seq<char>| #[trigger] lookup(ta, q) == lookup(tb, q) by {
                if q == ka {
                    assert forall|x: int| 0 <= x < ta.len() implies (#[trigger] ta[x]).0 != q by {
                        assert(ta[x] == a[x + 1]);
                    }
                    assert forall|x: int| 0 <= x < tb.len() implies (#[trigger] tb[x]).0 != q by {
                        assert(tb[x] == b[x + 1]);
                    }
                    lemma_lookup_absent(ta, q);
                    lemma_lookup_absent(tb, q);
                } else {
                    assert(lookup(a, q) == lookup(ta, q));
                    assert(lookup(b, q) == lookup(tb, q));
                    assert(entries_map(a).contains_key(q) == entries_map(b).contains_key(q));
                    if lookup(a, q) is Some {
                        assert(entries_map(a)[q] == entries_map(b)[q]);
                    }
                }
            }
        }
        lemma_sorted_determined(ta, tb);
        assert(a =~= seq![a[0]] + ta);
        assert(b =~= seq![b[0]] + tb);
    }
}

} // verus!
