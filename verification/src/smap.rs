//! A map from strings, kept in key order: the registry's and the
//! lockfile's datasets, walked in canonical id order.
use vstd::prelude::*;
use crate::text::{chars_of, copy_str, str_eq, views};

verus! {

/// Lexicographic order on strings, by code point (the order `String`'s
/// `Ord` gives).
pub open spec fn str_lt(a: Seq<char>, b: Seq<char>) -> bool
    decreases a.len(),
{
    if a.len() == 0 {
        b.len() > 0
    } else if b.len() == 0 {
        false
    } else if a[0] != b[0] {
        a[0] < b[0]
    } else {
        str_lt(a.drop_first(), b.drop_first())
    }
}

pub proof fn lemma_str_lt_irreflexive(a: Seq<char>)
    ensures
        !str_lt(a, a),
    decreases a.len(),
{
    if a.len() > 0 {
        lemma_str_lt_irreflexive(a.drop_first());
    }
}

pub proof fn lemma_str_lt_transitive(a: Seq<char>, b: Seq<char>, c: Seq<char>)
    requires
        str_lt(a, b),
        str_lt(b, c),
    ensures
        str_lt(a, c),
    decreases a.len(),
{
    if a.len() > 0 && b.len() > 0 && c.len() > 0 {
        if a[0] == b[0] && b[0] == c[0] {
            lemma_str_lt_transitive(a.drop_first(), b.drop_first(), c.drop_first());
        }
    }
}

pub proof fn lemma_str_lt_total(a: Seq<char>, b: Seq<char>)
    ensures
        a == b || str_lt(a, b) || str_lt(b, a),
    decreases a.len(),
{
    if a.len() > 0 && b.len() > 0 {
        if a[0] == b[0] {
            lemma_str_lt_total(a.drop_first(), b.drop_first());
            if a.drop_first() == b.drop_first() {
                assert(a =~= seq![a[0]] + a.drop_first());
                assert(b =~= seq![b[0]] + b.drop_first());
            }
        }
    } else if a.len() == 0 && b.len() == 0 {
        assert(a =~= b);
    }
}

/// `a < b` for strings.
pub fn str_less(a: &str, b: &str) -> (r: bool)
    ensures
        r == str_lt(a@, b@),
{
    let av = chars_of(a);
    let bv = chars_of(b);
    let mut i: usize = 0;
    proof {
        assert(av@.skip(0) =~= av@);
        assert(bv@.skip(0) =~= bv@);
    }
    while i < av.len() && i < bv.len()
        invariant
            i <= av.len(),
            i <= bv.len(),
            av@ == a@,
            bv@ == b@,
            str_lt(av@, bv@) == str_lt(av@.skip(i as int), bv@.skip(i as int)),
        decreases av.len() - i,
    {
        let ghost sa = av@.skip(i as int);
        let ghost sb = bv@.skip(i as int);
        proof {
            assert(sa[0] == av@[i as int]);
            assert(sb[0] == bv@[i as int]);
            assert(sa.drop_first() =~= av@.skip(i + 1));
            assert(sb.drop_first() =~= bv@.skip(i + 1));
        }
        if av[i] != bv[i] {
            let x = av[i];
            let y = bv[i];
            let r = x < y;
            proof {
                assert(str_lt(sa, sb) == (sa[0] < sb[0]));
                assert(r == (x < y));
            }
            return r;
        }
        i = i + 1;
    }
    proof {
        let sa = av@.skip(i as int);
        let sb = bv@.skip(i as int);
        if i == av.len() {
            assert(sa.len() == 0);
        } else {
            assert(sb.len() == 0);
        }
    }
    i == av.len() && i < bv.len()
}

/// Keys strictly increasing.
pub open spec fn keys_sorted<V>(s: Seq<(Seq<char>, V)>) -> bool {
    forall|i: int, j: int| 0 <= i < j < s.len() ==> str_lt(#[trigger] s[i].0, #[trigger] s[j].0)
}

/// The value under `k`.
pub open spec fn lookup_key<V>(s: Seq<(Seq<char>, V)>, k: Seq<char>) -> Option<V>
    decreases s.len(),
{
    if s.len() == 0 {
        None
    } else if s[0].0 == k {
        Some(s[0].1)
    } else {
        lookup_key(s.drop_first(), k)
    }
}

/// The keys, in order.
pub open spec fn keys_of<V>(s: Seq<(Seq<char>, V)>) -> Seq<Seq<char>> {
    s.map_values(|e: (Seq<char>, V)| e.0)
}

/// A map from strings, in key order.
pub struct StrMap<V> {
    entries: Vec<(String, V)>,
}

impl<V> StrMap<V> {
    /// The entries, in key order.
    pub closed spec fn contents(&self) -> Seq<(Seq<char>, V)> {
        self.entries@.map_values(|e: (String, V)| (e.0@, e.1))
    }

    #[verifier::type_invariant]
    spec fn inv(&self) -> bool {
        keys_sorted(self.contents())
    }

    /// An empty map.
    pub fn new() -> (r: StrMap<V>)
        ensures
            r.contents() == Seq::<(Seq<char>, V)>::empty(),
    {
        let r = StrMap { entries: Vec::new() };
        proof {
            assert(r.contents() =~= Seq::<(Seq<char>, V)>::empty());
        }
        r
    }

    /// The number of entries; the keys strictly increase.
    pub fn len(&self) -> (n: usize)
        ensures
            n == self.contents().len(),
            keys_sorted(self.contents()),
    {
        proof {
            use_type_invariant(self);
        }
        self.entries.len()
    }

    /// The `i`-th entry in key order.
    pub fn entry(&self, i: usize) -> (r: (&str, &V))
        requires
            i < self.contents().len(),
        ensures
            r.0@ == self.contents()[i as int].0,
            *r.1 == self.contents()[i as int].1,
    {
        (self.entries[i].0.as_str(), &self.entries[i].1)
    }

    /// The value under `key`.
    pub fn get(&self, key: &str) -> (r: Option<&V>)
        ensures
            match r {
                Some(v) => lookup_key(self.contents(), key@) == Some(*v),
                None => lookup_key(self.contents(), key@) is None,
            },
    {
        let ghost c = self.contents();
        let mut i: usize = 0;
        proof {
            assert(c.skip(0) =~= c);
        }
        while i < self.entries.len()
            invariant
                i <= self.entries.len(),
                c == self.contents(),
                c.len() == self.entries@.len(),
                lookup_key(c, key@) == lookup_key(c.skip(i as int), key@),
            decreases self.entries.len() - i,
        {
            let ghost rest = c.skip(i as int);
            proof {
                assert(rest[0] == c[i as int]);
                assert(c[i as int] == (self.entries@[i as int].0@, self.entries@[i as int].1));
                assert(rest.drop_first() =~= c.skip(i + 1));
            }
            if str_eq(self.entries[i].0.as_str(), key) {
                return Some(&self.entries[i].1);
            }
            i = i + 1;
        }
        None
    }

    /// Insert `(key, value)`, replacing the value under an equal key and
    /// keeping the key order.
    pub fn insert(&mut self, key: String, value: V)
        ensures
            forall|k: Seq<char>|
                #[trigger] lookup_key(final(self).contents(), k) == if k == key@ {
                    Some(value)
                } else {
                    lookup_key(old(self).contents(), k)
                },
            forall|k: Seq<char>|
                keys_of(final(self).contents()).contains(k) <==> (k == key@ || keys_of(
                    old(self).contents(),
                ).contains(k)),
    {
        proof {
            use_type_invariant(&*self);
        }
        let ghost c = self.contents();
        let mut i: usize = 0;
        while i < self.entries.len() && str_less(self.entries[i].0.as_str(), key.as_str())
            invariant
                i <= self.entries.len(),
                c == self.contents(),
                c == old(self).contents(),
                c.len() == self.entries@.len(),
                keys_sorted(c),
                forall|j: int| 0 <= j < i ==> str_lt(#[trigger] c[j].0, key@),
            decreases self.entries.len() - i,
        {
            proof {
                assert(c[i as int].0 == self.entries@[i as int].0@);
            }
            i = i + 1;
        }
        let replace = i < self.entries.len() && str_eq(self.entries[i].0.as_str(), key.as_str());
        let mut es: Vec<(String, V)> = Vec::new();
        std::mem::swap(&mut es, &mut self.entries);
        proof {
            assert(es@.map_values(|e: (String, V)| (e.0@, e.1)) =~= c);
        }
        let ghost kv = key@;
        let ghost vv = value;
        if replace {
            es.set(i, (key, value));
        } else {
            es.insert(i, (key, value));
        }
        let ghost nc = es@.map_values(|e: (String, V)| (e.0@, e.1));
        proof {
            if replace {
                assert(c[i as int].0 == kv);
                assert(nc =~= c.update(i as int, (kv, vv)));
            } else {
                assert(nc =~= c.insert(i as int, (kv, vv)));
                if i < c.len() {
                    lemma_str_lt_total(c[i as int].0, kv);
                }
            }
            lemma_insert_sorted(c, i as int, kv, vv, replace);
        }
        self.entries = es;
        proof {
            assert(self.contents() == nc);
            assert(nc == if replace {
                c.update(i as int, (kv, vv))
            } else {
                c.insert(i as int, (kv, vv))
            });
            lemma_insert_lookup(c, nc, i as int, kv, vv, replace);
            lemma_insert_keys(c, nc, i as int, kv, vv, replace);
        }
    }
}

proof fn lemma_insert_sorted<V>(c: Seq<(Seq<char>, V)>, i: int, k: Seq<char>, v: V, replace: bool)
    requires
        keys_sorted(c),
        0 <= i <= c.len(),
        forall|j: int| 0 <= j < i ==> str_lt(#[trigger] c[j].0, k),
        replace ==> i < c.len() && c[i].0 == k,
        !replace ==> (i < c.len() ==> str_lt(k, c[i].0)),
    ensures
        keys_sorted(
            if replace {
                c.update(i, (k, v))
            } else {
                c.insert(i, (k, v))
            },
        ),
{
    let n = if replace {
        c.update(i, (k, v))
    } else {
        c.insert(i, (k, v))
    };
    assert forall|a: int, b: int| 0 <= a < b < n.len() implies str_lt(
        #[trigger] n[a].0,
        #[trigger] n[b].0,
    ) by {
        if replace {
            if a == i {
                assert(str_lt(c[a].0, c[b].0));
            } else if b == i {
                assert(str_lt(c[a].0, c[b].0));
            }
        } else {
            if a < i && b == i {
            } else if a < i && b > i {
                assert(n[b] == c[b - 1]);
            } else if a == i {
                assert(n[b] == c[b - 1]);
                if b - 1 > i {
                    lemma_str_lt_transitive(k, c[i].0, c[b - 1].0);
                }
            } else if a > i {
                assert(n[a] == c[a - 1]);
                assert(n[b] == c[b - 1]);
            } else {
                assert(n[a] == c[a]);
                assert(n[b] == c[b]);
            }
        }
    }
}

pub proof fn lemma_lookup_sorted<V>(c: Seq<(Seq<char>, V)>, j: int)
    requires
        keys_sorted(c),
        0 <= j < c.len(),
    ensures
        lookup_key(c, c[j].0) == Some(c[j].1),
    decreases c.len(),
{
    if j > 0 {
        lemma_str_lt_irreflexive(c[j].0);
        assert(str_lt(c[0].0, c[j].0));
        assert(c[0].0 != c[j].0);
        assert(c.drop_first()[j - 1] == c[j]);
        lemma_lookup_sorted(c.drop_first(), j - 1);
    }
}

proof fn lemma_lookup_index<V>(c: Seq<(Seq<char>, V)>, k: Seq<char>)
    ensures
        match lookup_key(c, k) {
            Some(v) => exists|j: int| 0 <= j < c.len() && c[j].0 == k && c[j].1 == v,
            None => forall|j: int| 0 <= j < c.len() ==> c[j].0 != k,
        },
    decreases c.len(),
{
    if c.len() > 0 {
        lemma_lookup_index(c.drop_first(), k);
        if c[0].0 != k {
            match lookup_key(c.drop_first(), k) {
                Some(v) => {
                    let j = choose|j: int|
                        0 <= j < c.drop_first().len() && c.drop_first()[j].0 == k
                            && c.drop_first()[j].1 == v;
                    assert(c[j + 1] == c.drop_first()[j]);
                },
                None => {
                    assert forall|j: int| 0 <= j < c.len() implies c[j].0 != k by {
                        if j > 0 {
                            assert(c[j] == c.drop_first()[j - 1]);
                        }
                    }
                },
            }
        }
    }
}

proof fn lemma_insert_lookup<V>(
    c: Seq<(Seq<char>, V)>,
    n: Seq<(Seq<char>, V)>,
    i: int,
    k: Seq<char>,
    v: V,
    replace: bool,
)
    requires
        n == (if replace {
            c.update(i, (k, v))
        } else {
            c.insert(i, (k, v))
        }),
        keys_sorted(c),
        0 <= i <= c.len(),
        forall|j: int| 0 <= j < i ==> str_lt(#[trigger] c[j].0, k),
        replace ==> i < c.len() && c[i].0 == k,
        !replace ==> (i < c.len() ==> str_lt(k, c[i].0)),
    ensures
        forall|q: Seq<char>|
            #[trigger] lookup_key(n, q) == if q == k {
                Some(v)
            } else {
                lookup_key(c, q)
            },
{
    lemma_insert_sorted(c, i, k, v, replace);
    assert forall|q: Seq<char>| #[trigger] lookup_key(n, q) == if q == k {
        Some(v)
    } else {
        lookup_key(c, q)
    } by {
        if q == k {
            assert(n[i] == (k, v));
            lemma_lookup_sorted(n, i);
        } else {
            lemma_lookup_index(c, q);
            lemma_lookup_index(n, q);
            match lookup_key(c, q) {
                Some(w) => {
                    let j = choose|j: int| 0 <= j < c.len() && c[j].0 == q && c[j].1 == w;
                    let jn = if replace || j < i {
                        j
                    } else {
                        j + 1
                    };
                    assert(n[jn] == c[j]);
                    lemma_lookup_sorted(n, jn);
                },
                None => {
                    assert forall|j: int| 0 <= j < n.len() implies n[j].0 != q by {
                        if replace {
                            if j != i {
                                assert(n[j] == c[j]);
                            }
                        } else if j < i {
                            assert(n[j] == c[j]);
                        } else if j > i {
                            assert(n[j] == c[j - 1]);
                        }
                    }
                    match lookup_key(n, q) {
                        Some(w) => {
                            let j = choose|j: int| 0 <= j < n.len() && n[j].0 == q && n[j].1 == w;
                        },
                        None => {},
                    }
                },
            }
        }
    }
}

proof fn lemma_insert_keys<V>(
    c: Seq<(Seq<char>, V)>,
    n: Seq<(Seq<char>, V)>,
    i: int,
    k: Seq<char>,
    v: V,
    replace: bool,
)
    requires
        n == (if replace {
            c.update(i, (k, v))
        } else {
            c.insert(i, (k, v))
        }),
        0 <= i <= c.len(),
        replace ==> i < c.len() && c[i].0 == k,
    ensures
        forall|q: Seq<char>| keys_of(n).contains(q) <==> (q == k || keys_of(c).contains(q)),
{
    assert forall|q: Seq<char>| keys_of(n).contains(q) <==> (q == k || keys_of(c).contains(q)) by {
        if keys_of(n).contains(q) {
            let j = choose|j: int| 0 <= j < keys_of(n).len() && keys_of(n)[j] == q;
            if q != k {
                if replace {
                    assert(keys_of(c)[j] == q);
                } else if j < i {
                    assert(keys_of(c)[j] == q);
                } else {
                    assert(keys_of(c)[j - 1] == q);
                }
            }
        }
        if q == k {
            assert(keys_of(n)[i] == q);
        } else if keys_of(c).contains(q) {
            let j = choose|j: int| 0 <= j < keys_of(c).len() && keys_of(c)[j] == q;
            if replace || j < i {
                assert(keys_of(n)[j] == q);
            } else {
                assert(keys_of(n)[j + 1] == q);
            }
        }
    }
}

// ------------------------------------------------------------------
// Sorting strings
// ------------------------------------------------------------------

/// Non-decreasing in string order.
pub open spec fn str_sorted(s: Seq<Seq<char>>) -> bool {
    forall|i: int, j: int| 0 <= i < j < s.len() ==> !str_lt(#[trigger] s[j], #[trigger] s[i])
}

/// `v` in ascending string order (what `sort()` gives): the same strings,
/// each as often as in `v`.
pub fn sort_strings(v: &Vec<String>) -> (r: Vec<String>)
    ensures
        str_sorted(views(r@)),
        views(r@).to_multiset() == views(v@).to_multiset(),
{
    let mut out: Vec<String> = Vec::new();
    let mut i: usize = 0;
    proof {
        assert(views(out@) =~= views(v@).take(0));
    }
    while i < v.len()
        invariant
            i <= v.len(),
            str_sorted(views(out@)),
            views(out@).to_multiset() == views(v@).take(i as int).to_multiset(),
        decreases v.len() - i,
    {
        let x = copy_str(v[i].as_str());
        let mut p: usize = 0;
        while p < out.len() && !str_less(x.as_str(), out[p].as_str())
            invariant
                p <= out.len(),
                forall|j: int| 0 <= j < p ==> !str_lt(x@, #[trigger] views(out@)[j]),
            decreases out.len() - p,
        {
            p = p + 1;
        }
        let ghost before = views(out@);
        out.insert(p, x);
        proof {
            assert(views(out@) =~= before.insert(p as int, x@));
            assert(views(v@).take(i + 1) =~= views(v@).take(i as int).push(v@[i as int]@));
            vstd::seq_lib::to_multiset_insert(before, p as int, x@);
            vstd::seq_lib::to_multiset_build(views(v@).take(i as int), v@[i as int]@);
            let after = views(out@);
            assert forall|a: int, b: int| 0 <= a < b < after.len() implies !str_lt(
                #[trigger] after[b],
                #[trigger] after[a],
            ) by {
                if a < p && b == p {
                } else if a == p && b > p {
                    assert(after[b] == before[b - 1]);
                    assert(str_lt(x@, before[p as int]));
                    if str_lt(before[b - 1], x@) {
                        lemma_str_lt_transitive(before[b - 1], x@, before[p as int]);
                        if b - 1 > p {
                            assert(!str_lt(before[b - 1], before[p as int]));
                        } else {
                            lemma_str_lt_irreflexive(before[p as int]);
                        }
                    }
                } else if a < p && b > p {
                    assert(after[b] == before[b - 1]);
                    assert(after[a] == before[a]);
                } else if a > p {
                    assert(after[b] == before[b - 1]);
                    assert(after[a] == before[a - 1]);
                } else {
                    assert(after[b] == before[b]);
                    assert(after[a] == before[a]);
                }
            }
        }
        i = i + 1;
    }
    proof {
        assert(views(v@).take(v@.len() as int) =~= views(v@));
    }
    out
}

} // verus!
