//! Publishing: which records a publisher gets (tag filter, per-bill dedup,
//! newest first, limit), which publishers run, and the text a feed is
//! labelled with.
use vstd::prelude::*;
use crate::config::{Manifest, Publisher, PublisherKind, resolved_limit_spec};
use crate::doc::doc_id;
use crate::error::Error;
use crate::json::{Json, JsonV, as_object, entries_get, get, json_text_value, jvo, jvs, parse_json_text, str_opt};
use crate::num::{parse_usize, parse_usize_spec};
use crate::route::opt_view;
use crate::smap::{StrMap, keys_of, lemma_str_lt_irreflexive, lemma_str_lt_total, lemma_str_lt_transitive, lookup_key, str_less, str_lt};
use crate::text::{
    char_to_uppercase, char_uppercase, chars_of, concat2, concat3, copy_str, eq_ignore_ascii_case,
    eq_ignore_ascii_case_str, is_blank, all_ws, join, join_strs, push_char, split_whitespace_str,
    str_eq, string_from, trim, views, words, split, split_trimmed, trimmed_nonempty,
};
use crate::wizard::TextBuilder;

verus! {

// ------------------------------------------------------------------
// Tag filter
// ------------------------------------------------------------------

/// True when an entry carries a non-empty `tags` object and, when tag
/// names are given, at least one of them is a key of it.
pub open spec fn tag_filter_spec(entry: JsonV, names: Seq<Seq<char>>) -> bool {
    match get(entry, "tags"@) {
        Some(JsonV::Object(m)) => m.len() > 0 && (names.len() == 0 || exists|i: int|
            0 <= i < names.len() && #[trigger] entries_get(m, names[i]) is Some),
        _ => false,
    }
}

proof fn lemma_key_found(m: Seq<(Seq<char>, JsonV)>, k: int)
    requires
        0 <= k < m.len(),
    ensures
        entries_get(m, m[k].0) is Some,
    decreases m.len(),
{
    if k > 0 && m[0].0 != m[k].0 {
        lemma_key_found(m.drop_first(), k - 1);
        assert(m.drop_first()[k - 1] == m[k]);
    }
}

/// An entry whose non-empty `tags` object has a key equal to any of the
/// selected names passes the filter, whichever position that name has.
pub proof fn law_any_selected_tag_passes(entry: JsonV, names: Seq<Seq<char>>, k: int, i: int)
    requires
        get(entry, "tags"@) matches Some(JsonV::Object(m)) && 0 <= k < m.len(),
        0 <= i < names.len(),
        get(entry, "tags"@) matches Some(JsonV::Object(m)) && names[i] == m[k].0,
    ensures
        tag_filter_spec(entry, names),
{
    let m = get(entry, "tags"@)->0->Object_0;
    lemma_key_found(m, k);
    assert(entries_get(m, names[i]) is Some);
}

/// The filter does not depend on the order of the selected names: two
/// lists holding the same names give the same answer.
pub proof fn law_tag_filter_ignores_name_order(
    entry: JsonV,
    names: Seq<Seq<char>>,
    others: Seq<Seq<char>>,
)
    requires
        names.to_set() == others.to_set(),
    ensures
        tag_filter_spec(entry, names) == tag_filter_spec(entry, others),
{
    assert forall|x: Seq<char>| names.contains(x) <==> others.contains(x) by {
        assert(names.to_set().contains(x) == names.contains(x));
        assert(others.to_set().contains(x) == others.contains(x));
    }
    if names.len() == 0 && others.len() > 0 {
        assert(others.contains(others[0]));
    }
    if others.len() == 0 && names.len() > 0 {
        assert(names.contains(names[0]));
    }
    if let Some(JsonV::Object(m)) = get(entry, "tags"@) {
        if exists|i: int| 0 <= i < names.len() && #[trigger] entries_get(m, names[i]) is Some {
            let i = choose|i: int| 0 <= i < names.len() && #[trigger] entries_get(m, names[i]) is Some;
            assert(names.contains(names[i]));
            let j = choose|j: int| 0 <= j < others.len() && others[j] == names[i];
            assert(entries_get(m, others[j]) is Some);
        }
        if exists|i: int| 0 <= i < others.len() && #[trigger] entries_get(m, others[i]) is Some {
            let i = choose|i: int| 0 <= i < others.len() && #[trigger] entries_get(m, others[i]) is Some;
            assert(others.contains(others[i]));
            let j = choose|j: int| 0 <= j < names.len() && names[j] == others[i];
            assert(entries_get(m, names[j]) is Some);
        }
    }
}

/// Filter by tags: only tagged entries pass; with tag names given, only
/// entries holding at least one of them.
pub fn filter_by_tags(entry: &Json, tag_names: &[String]) -> (b: bool)
    ensures
        b == tag_filter_spec(entry@, views(tag_names@)),
{
    let tags = match entry.get("tags") {
        Some(t) => match t {
            Json::Object(m) => {
                proof {
                    assert(get(entry@, "tags"@) == Some(JsonV::Object(jvo(m@))));
                }
                m
            },
            _ => return false,
        },
        None => return false,
    };
    proof {
        crate::json::lemma_jvo_index(tags@);
    }
    if tags.len() == 0 {
        return false;
    }
    if tag_names.len() == 0 {
        return true;
    }
    let ghost names = views(tag_names@);
    let mut i: usize = 0;
    while i < tag_names.len()
        invariant
            i <= tag_names.len(),
            names == views(tag_names@),
            get(entry@, "tags"@) == Some(JsonV::Object(jvo(tags@))),
            jvo(tags@).len() > 0,
            forall|j: int| 0 <= j < i ==> !(#[trigger] entries_get(jvo(tags@), names[j]) is Some),
        decreases tag_names.len() - i,
    {
        proof {
            assert(names[i as int] == tag_names@[i as int]@);
        }
        if crate::json::lookup(tags, tag_names[i].as_str()).is_some() {
            proof {
                assert(entries_get(jvo(tags@), names[i as int]) is Some);
            }
            return true;
        }
        i = i + 1;
    }
    false
}

// ------------------------------------------------------------------
// Per-bill dedup
// ------------------------------------------------------------------

/// The bill an entry is about: its document id (the bill's
/// dataset-relative directory).
pub open spec fn bill_key(e: JsonV) -> Seq<char> {
    doc_id(e)
}

/// The entries whose bill has not appeared earlier in the list, in order.
pub open spec fn dedup_spec(es: Seq<JsonV>) -> Seq<JsonV>
    decreases es.len(),
{
    if es.len() == 0 {
        Seq::empty()
    } else {
        let r = dedup_spec(es.drop_last());
        if exists|j: int| 0 <= j < es.len() - 1 && bill_key(#[trigger] es[j]) == bill_key(es.last()) {
            r
        } else {
            r.push(es.last())
        }
    }
}

pub open spec fn entry_views(v: Seq<Json>) -> Seq<JsonV> {
    v.map_values(|j: Json| j@)
}

/// True when some entry of `es` is about the bill `k`.
pub open spec fn has_bill(es: Seq<JsonV>, k: Seq<char>) -> bool {
    exists|j: int| 0 <= j < es.len() && bill_key(#[trigger] es[j]) == k
}

/// The bills of the kept entries are exactly the bills of the input.
pub proof fn lemma_dedup_same_bills(es: Seq<JsonV>, k: Seq<char>)
    ensures
        has_bill(dedup_spec(es), k) <==> has_bill(es, k),
    decreases es.len(),
{
    if es.len() > 0 {
        let p = es.drop_last();
        let r = dedup_spec(p);
        lemma_dedup_same_bills(p, k);
        lemma_dedup_same_bills(p, bill_key(es.last()));
        if has_bill(es, k) {
            let j = choose|j: int| 0 <= j < es.len() && bill_key(#[trigger] es[j]) == k;
            if j < p.len() {
                assert(p[j] == es[j]);
                assert(has_bill(p, k));
            }
        }
        if has_bill(p, k) {
            let j = choose|j: int| 0 <= j < p.len() && bill_key(#[trigger] p[j]) == k;
            assert(es[j] == p[j]);
        }
        if exists|j: int| 0 <= j < es.len() - 1 && bill_key(#[trigger] es[j]) == bill_key(es.last()) {
            let j = choose|j: int|
                0 <= j < es.len() - 1 && bill_key(#[trigger] es[j]) == bill_key(es.last());
            assert(p[j] == es[j]);
            assert(has_bill(p, bill_key(es.last())));
        } else {
            let n = r.push(es.last());
            if has_bill(r, k) {
                let m = choose|m: int| 0 <= m < r.len() && bill_key(#[trigger] r[m]) == k;
                assert(n[m] == r[m]);
            }
            if has_bill(n, k) {
                let m = choose|m: int| 0 <= m < n.len() && bill_key(#[trigger] n[m]) == k;
                if m < r.len() {
                    assert(n[m] == r[m]);
                }
            }
            assert(n[r.len() as int] == es.last());
            assert(es[es.len() - 1] == es.last());
        }
    }
}

/// Deduplicate by bill: keep the first entry of each bill, in order.
pub fn deduplicate_entries(entries: Vec<Json>) -> (r: Vec<Json>)
    ensures
        entry_views(r@) == dedup_spec(entry_views(entries@)),
{
    let ghost ev = entry_views(entries@);
    let mut keys: Vec<String> = Vec::new();
    let mut out: Vec<Json> = Vec::new();
    let mut i: usize = 0;
    proof {
        assert(ev.take(0) =~= Seq::<JsonV>::empty());
    }
    while i < entries.len()
        invariant
            i <= entries.len(),
            ev == entry_views(entries@),
            entry_views(out@) == dedup_spec(ev.take(i as int)),
            keys@.len() == out@.len(),
            forall|m: int| 0 <= m < keys@.len() ==> #[trigger] keys@[m]@ == bill_key(out@[m]@),
        decreases entries.len() - i,
    {
        let key = crate::doc::ocd_entry_id(&entries[i]);
        let ghost pre = ev.take(i as int);
        let ghost t = ev.take(i + 1);
        let ghost kept = entry_views(out@);
        proof {
            assert(t.drop_last() =~= pre);
            assert(t.last() == ev[i as int]);
            assert(ev[i as int] == entries@[i as int]@);
        }
        let mut seen = false;
        let mut k: usize = 0;
        while k < keys.len()
            invariant
                k <= keys.len(),
                seen == exists|m: int| 0 <= m < k && #[trigger] keys@[m]@ == key@,
            decreases keys.len() - k,
        {
            if str_eq(keys[k].as_str(), key.as_str()) {
                seen = true;
            }
            proof {
                if seen && !(exists|m: int| 0 <= m < k && #[trigger] keys@[m]@ == key@) {
                    assert(keys@[k as int]@ == key@);
                }
                if exists|m: int| 0 <= m < k && #[trigger] keys@[m]@ == key@ {
                    let m = choose|m: int| 0 <= m < k && #[trigger] keys@[m]@ == key@;
                    assert(0 <= m < k + 1 && keys@[m]@ == key@);
                }
            }
            k = k + 1;
        }
        proof {
            lemma_dedup_same_bills(pre, key@);
            if seen {
                let m = choose|m: int| 0 <= m < keys@.len() && #[trigger] keys@[m]@ == key@;
                assert(kept[m] == out@[m]@);
                assert(has_bill(kept, key@));
                let j = choose|j: int| 0 <= j < pre.len() && bill_key(#[trigger] pre[j]) == key@;
                assert(t[j] == pre[j]);
                assert(0 <= j < t.len() - 1 && bill_key(t[j]) == bill_key(t.last()));
            } else {
                if has_bill(kept, key@) {
                    let m = choose|m: int| 0 <= m < kept.len() && bill_key(#[trigger] kept[m]) == key@;
                    assert(kept[m] == out@[m]@);
                    assert(keys@[m]@ == key@);
                }
                if exists|j: int| 0 <= j < t.len() - 1 && bill_key(#[trigger] t[j]) == bill_key(
                    t.last(),
                ) {
                    let j = choose|j: int|
                        0 <= j < t.len() - 1 && bill_key(#[trigger] t[j]) == bill_key(t.last());
                    assert(pre[j] == t[j]);
                    assert(has_bill(pre, key@));
                }
            }
        }
        if !seen {
            let ghost before = out@;
            let ghost kb = keys@;
            let c = entries[i].copy();
            let ghost cv = c@;
            out.push(c);
            keys.push(key);
            proof {
                assert(entry_views(out@) =~= entry_views(before).push(ev[i as int]));
                assert forall|m: int| 0 <= m < keys@.len() implies #[trigger] keys@[m]@ == bill_key(
                    out@[m]@,
                ) by {
                    if m < kb.len() {
                        assert(keys@[m] == kb[m]);
                        assert(out@[m] == before[m]);
                    } else {
                        assert(out@[m]@ == cv);
                    }
                }
            }
        }
        i = i + 1;
    }
    proof {
        assert(ev.take(entries@.len() as int) =~= ev);
    }
    out
}

/// After dedup no two entries are about the same bill.
pub proof fn law_dedup_one_entry_per_bill(es: Seq<JsonV>)
    ensures
        forall|a: int, b: int|
            0 <= a < b < dedup_spec(es).len() ==> bill_key(#[trigger] dedup_spec(es)[a])
                != bill_key(#[trigger] dedup_spec(es)[b]),
    decreases es.len(),
{
    if es.len() > 0 {
        let p = es.drop_last();
        let r = dedup_spec(p);
        law_dedup_one_entry_per_bill(p);
        if !(exists|j: int| 0 <= j < es.len() - 1 && bill_key(#[trigger] es[j]) == bill_key(
            es.last(),
        )) {
            let n = r.push(es.last());
            lemma_dedup_same_bills(p, bill_key(es.last()));
            assert forall|a: int, b: int| 0 <= a < b < n.len() implies bill_key(#[trigger] n[a])
                != bill_key(#[trigger] n[b]) by {
                assert(n[a] == r[a]);
                if b == n.len() - 1 {
                    if bill_key(r[a]) == bill_key(es.last()) {
                        assert(has_bill(r, bill_key(es.last())));
                        let j = choose|j: int|
                            0 <= j < p.len() && bill_key(#[trigger] p[j]) == bill_key(es.last());
                        assert(es[j] == p[j]);
                    }
                } else {
                    assert(n[b] == r[b]);
                }
            }
        }
    }
}

/// Every bill of the input keeps an entry after dedup, and every kept
/// entry is one of the input's.
pub proof fn law_dedup_keeps_every_bill(es: Seq<JsonV>, k: Seq<char>)
    ensures
        has_bill(es, k) ==> has_bill(dedup_spec(es), k),
{
    lemma_dedup_same_bills(es, k);
}

// ------------------------------------------------------------------
// Newest first
// ------------------------------------------------------------------

/// An entry's `timestamp`, or `""` when it has none.
pub open spec fn ts_of(e: JsonV) -> Seq<char> {
    match str_opt(get(e, "timestamp"@)) {
        Some(s) => s,
        None => Seq::empty(),
    }
}

/// `p` lists `0..n` once each.
pub open spec fn is_permutation(p: Seq<int>, n: int) -> bool {
    &&& p.len() == n
    &&& forall|k: int| 0 <= k < n ==> 0 <= #[trigger] p[k] < n
    &&& forall|k: int, l: int| 0 <= k < l < n ==> #[trigger] p[k] != #[trigger] p[l]
}

/// Under `p`, timestamps never increase, and entries with equal timestamps
/// keep their input order.
pub open spec fn stable_newest_first(p: Seq<int>, es: Seq<JsonV>) -> bool {
    forall|k: int, l: int|
        0 <= k < l < p.len() ==> !str_lt(ts_of(es[#[trigger] p[k]]), ts_of(es[#[trigger] p[l]]))
            && (ts_of(es[p[k]]) == ts_of(es[p[l]]) ==> p[k] < p[l])
}

/// `r` is `es` sorted newest first, stably.
pub open spec fn sorted_newest_first(r: Seq<JsonV>, es: Seq<JsonV>) -> bool {
    exists|p: Seq<int>|
        is_permutation(p, es.len() as int) && stable_newest_first(p, es) && r.len() == es.len()
            && forall|k: int| 0 <= k < r.len() ==> #[trigger] r[k] == es[p[k]]
}

fn ts_exec(e: &Json) -> (r: String)
    ensures
        r@ == ts_of(e@),
{
    match e.get("timestamp") {
        Some(t) => match t.as_str() {
            Some(s) => copy_str(s),
            None => String::new(),
        },
        None => String::new(),
    }
}

/// Sort entries by timestamp, newest first; entries with equal timestamps
/// (or none) keep their order.
pub fn sort_by_timestamp(entries: Vec<Json>) -> (r: Vec<Json>)
    ensures
        sorted_newest_first(entry_views(r@), entry_views(entries@)),
{
    let ghost ev = entry_views(entries@);
    let n = entries.len();
    let mut ts: Vec<String> = Vec::new();
    let mut i: usize = 0;
    while i < n
        invariant
            i <= n,
            n == entries.len(),
            ev == entry_views(entries@),
            ts@.len() == i,
            forall|j: int| 0 <= j < i ==> #[trigger] ts@[j]@ == ts_of(ev[j]),
        decreases n - i,
    {
        let t = ts_exec(&entries[i]);
        ts.push(t);
        i = i + 1;
    }
    let mut idx: Vec<usize> = Vec::new();
    let mut i: usize = 0;
    while i < n
        invariant
            i <= n,
            n == entries.len(),
            ev == entry_views(entries@),
            ts@.len() == n,
            forall|j: int| 0 <= j < n ==> #[trigger] ts@[j]@ == ts_of(ev[j]),
            is_permutation(idx@.map_values(|x: usize| x as int), i as int),
            stable_newest_first(idx@.map_values(|x: usize| x as int), ev),
            forall|k: int| 0 <= k < idx@.len() ==> #[trigger] idx@[k] < i,
        decreases n - i,
    {
        let ghost before = idx@.map_values(|x: usize| x as int);
        let mut pos: usize = 0;
        while pos < idx.len() && !str_less(ts[idx[pos]].as_str(), ts[i].as_str())
            invariant
                pos <= idx.len(),
                idx@.len() == i,
                i < n,
                ts@.len() == n,
                before == idx@.map_values(|x: usize| x as int),
                is_permutation(before, i as int),
                forall|k: int| 0 <= k < idx@.len() ==> #[trigger] idx@[k] < i,
                forall|k: int| 0 <= k < pos ==> !str_lt(
                    ts_of(ev[#[trigger] before[k]]),
                    ts_of(ev[i as int]),
                ),
                forall|j: int| 0 <= j < n ==> #[trigger] ts@[j]@ == ts_of(ev[j]),
            decreases idx.len() - pos,
        {
            proof {
                assert(before[pos as int] == idx@[pos as int] as int);
            }
            pos = pos + 1;
        }
        proof {
            if pos < idx.len() {
                assert(before[pos as int] == idx@[pos as int] as int);
                assert(str_lt(ts_of(ev[before[pos as int]]), ts_of(ev[i as int])));
            }
            lemma_insert_keeps_order(ev, before, i as int, pos as int);
        }
        let ghost ib = idx@;
        idx.insert(pos, i);
        proof {
            assert(idx@.map_values(|x: usize| x as int) =~= before.insert(pos as int, i as int));
            assert forall|k: int| 0 <= k < idx@.len() implies #[trigger] idx@[k] < i + 1 by {
                if k < pos {
                    assert(idx@[k] == ib[k]);
                } else if k > pos {
                    assert(idx@[k] == ib[k - 1]);
                }
            }
        }
        i = i + 1;
    }
    let mut out: Vec<Json> = Vec::new();
    let mut k: usize = 0;
    let ghost p = idx@.map_values(|x: usize| x as int);
    while k < n
        invariant
            k <= n,
            n == entries.len(),
            ev == entry_views(entries@),
            idx@.len() == n,
            p == idx@.map_values(|x: usize| x as int),
            is_permutation(p, n as int),
            out@.len() == k,
            forall|m: int| 0 <= m < k ==> #[trigger] entry_views(out@)[m] == ev[p[m]],
        decreases n - k,
    {
        proof {
            assert(p[k as int] == idx@[k as int] as int);
        }
        let ghost before = out@;
        let c = entries[idx[k]].copy();
        proof {
            assert(c@ == ev[p[k as int]]);
        }
        out.push(c);
        proof {
            assert forall|m: int| 0 <= m < k + 1 implies #[trigger] entry_views(out@)[m]
                == ev[p[m]] by {
                if m < k {
                    assert(out@[m] == before[m]);
                    assert(entry_views(before)[m] == before[m]@);
                } else {
                    assert(out@[m] == c);
                }
            }
        }
        k = k + 1;
    }
    proof {
        assert(entry_views(out@).len() == n);
        assert(forall|m: int| 0 <= m < entry_views(out@).len() ==> #[trigger] entry_views(out@)[m]
            == ev[p[m]]);
        assert(stable_newest_first(p, ev));
    }
    out
}

proof fn lemma_insert_keeps_order(es: Seq<JsonV>, p: Seq<int>, i: int, pos: int)
    requires
        0 <= i < es.len(),
        is_permutation(p, i),
        stable_newest_first(p, es),
        0 <= pos <= p.len(),
        forall|k: int| 0 <= k < pos ==> !str_lt(ts_of(es[#[trigger] p[k]]), ts_of(es[i])),
        pos < p.len() ==> str_lt(ts_of(es[p[pos]]), ts_of(es[i])),
        forall|k: int| 0 <= k < p.len() ==> p[k] < es.len(),
    ensures
        is_permutation(p.insert(pos, i), i + 1),
        stable_newest_first(p.insert(pos, i), es),
{
    let q = p.insert(pos, i);
    assert forall|k: int, l: int| 0 <= k < l < i + 1 implies #[trigger] q[k] != #[trigger] q[l] by {
        if k < pos && l < pos {
        } else if k < pos && l == pos {
        } else if k < pos && l > pos {
            assert(q[l] == p[l - 1]);
        } else if k == pos {
            assert(q[l] == p[l - 1]);
        } else {
            assert(q[k] == p[k - 1]);
            assert(q[l] == p[l - 1]);
        }
    }
    assert forall|k: int| 0 <= k < i + 1 implies 0 <= #[trigger] q[k] < i + 1 by {
        if k > pos {
            assert(q[k] == p[k - 1]);
        }
    }
    assert forall|k: int, l: int| 0 <= k < l < q.len() implies !str_lt(
        ts_of(es[#[trigger] q[k]]),
        ts_of(es[#[trigger] q[l]]),
    ) && (ts_of(es[q[k]]) == ts_of(es[q[l]]) ==> q[k] < q[l]) by {
        let tk = ts_of(es[q[k]]);
        let tl = ts_of(es[q[l]]);
        if l < pos {
        } else if k < pos && l == pos {
            lemma_str_lt_total(tk, tl);
        } else if k < pos && l > pos {
            assert(q[l] == p[l - 1]);
        } else if k == pos {
            assert(q[l] == p[l - 1]);
            let tp = ts_of(es[p[pos]]);
            assert(str_lt(tp, tk));
            if l - 1 > pos {
                assert(!str_lt(tp, tl));
                lemma_str_lt_total(tp, tl);
                if tp != tl {
                    lemma_str_lt_transitive(tl, tp, tk);
                }
            }
            assert(str_lt(tl, tk));
            lemma_str_lt_irreflexive(tk);
            if str_lt(tk, tl) {
                lemma_str_lt_transitive(tk, tl, tk);
            }
        } else {
            assert(q[k] == p[k - 1]);
            assert(q[l] == p[l - 1]);
        }
    }
}

/// A permutation of `0..n` reaches every index.
proof fn lemma_permutation_covers(p: Seq<int>, n: int, j: int)
    requires
        is_permutation(p, n),
        0 <= j < n,
    ensures
        exists|k: int| 0 <= k < n && p[k] == j,
{
    assert(p.no_duplicates()) by {
        assert forall|a: int, b: int| 0 <= a < p.len() && 0 <= b < p.len() && a != b implies p[a]
            != p[b] by {
            if a < b {
                assert(p[a] != p[b]);
            } else {
                assert(p[b] != p[a]);
            }
        }
    }
    p.unique_seq_to_set();
    let range = vstd::set_lib::set_int_range(0, n);
    vstd::set_lib::lemma_int_range(0, n);
    assert(p.to_set().subset_of(range)) by {
        assert forall|x: int| p.to_set().contains(x) implies range.contains(x) by {
            let k = choose|k: int| 0 <= k < p.len() && p[k] == x;
            assert(0 <= p[k] < n);
        }
    }
    vstd::set_lib::lemma_len_subset(p.to_set(), range);
    vstd::set_lib::lemma_subset_equality(p.to_set(), range);
    assert(range.contains(j));
    assert(p.to_set().contains(j));
}

/// Each kept entry is the first entry of its bill in the input.
proof fn lemma_dedup_keeps_first(es: Seq<JsonV>, a: int)
    requires
        0 <= a < dedup_spec(es).len(),
    ensures
        exists|i: int|
            0 <= i < es.len() && dedup_spec(es)[a] == es[i] && forall|m: int|
                0 <= m < i ==> bill_key(#[trigger] es[m]) != bill_key(es[i]),
    decreases es.len(),
{
    let p = es.drop_last();
    let r = dedup_spec(p);
    if a < r.len() {
        lemma_dedup_keeps_first(p, a);
        let i = choose|i: int|
            0 <= i < p.len() && r[a] == p[i] && forall|m: int|
                0 <= m < i ==> bill_key(#[trigger] p[m]) != bill_key(p[i]);
        assert(dedup_spec(es)[a] == r[a]);
        assert(es[i] == p[i]);
        assert forall|m: int| 0 <= m < i implies bill_key(#[trigger] es[m]) != bill_key(es[i]) by {
            assert(es[m] == p[m]);
        }
    } else {
        let i = es.len() - 1;
        assert(dedup_spec(es)[a] == es[i]);
        assert forall|m: int| 0 <= m < i implies bill_key(#[trigger] es[m]) != bill_key(es[i]) by {
        }
    }
}

/// The per-bill dedup keeps, for each bill, its first entry: every kept
/// entry is an entry of the input with no earlier entry of the same bill.
pub proof fn law_dedup_keeps_first_entry(es: Seq<JsonV>)
    ensures
        forall|a: int|
            0 <= a < dedup_spec(es).len() ==> exists|i: int|
                0 <= i < es.len() && #[trigger] dedup_spec(es)[a] == es[i] && forall|m: int|
                    0 <= m < i ==> bill_key(#[trigger] es[m]) != bill_key(es[i]),
{
    assert forall|a: int| 0 <= a < dedup_spec(es).len() implies exists|i: int|
        0 <= i < es.len() && #[trigger] dedup_spec(es)[a] == es[i] && forall|m: int|
            0 <= m < i ==> bill_key(#[trigger] es[m]) != bill_key(es[i]) by {
        lemma_dedup_keeps_first(es, a);
    }
}

/// Sorting newest first before the per-bill dedup makes each bill's kept
/// entry its most recent one: no entry of the same bill is newer.
pub proof fn law_kept_entry_is_newest_of_its_bill(es: Seq<JsonV>, sorted: Seq<JsonV>)
    requires
        sorted_newest_first(sorted, es),
    ensures
        forall|a: int, j: int|
            0 <= a < dedup_spec(sorted).len() && 0 <= j < es.len() && bill_key(#[trigger] es[j])
                == bill_key(#[trigger] dedup_spec(sorted)[a]) ==> !str_lt(
                ts_of(dedup_spec(sorted)[a]),
                ts_of(es[j]),
            ),
{
    let p = choose|p: Seq<int>|
        is_permutation(p, es.len() as int) && stable_newest_first(p, es) && sorted.len()
            == es.len() && forall|k: int| 0 <= k < sorted.len() ==> #[trigger] sorted[k] == es[p[k]];
    let d = dedup_spec(sorted);
    assert forall|a: int, j: int|
        0 <= a < d.len() && 0 <= j < es.len() && bill_key(#[trigger] es[j]) == bill_key(
            #[trigger] d[a],
        ) implies !str_lt(ts_of(d[a]), ts_of(es[j])) by {
        lemma_permutation_covers(p, es.len() as int, j);
        let k = choose|k: int| 0 <= k < es.len() && p[k] == j;
        assert(sorted[k] == es[j]);
        lemma_dedup_keeps_first(sorted, a);
        let i = choose|i: int|
            0 <= i < sorted.len() && d[a] == sorted[i] && forall|m: int|
                0 <= m < i ==> bill_key(#[trigger] sorted[m]) != bill_key(sorted[i]);
        assert(sorted[i] == es[p[i]]);
        if k < i {
            assert(bill_key(sorted[k]) != bill_key(sorted[i]));
        } else if k == i {
            lemma_str_lt_irreflexive(ts_of(d[a]));
        } else {
            assert(!str_lt(ts_of(es[p[i]]), ts_of(es[p[k]])));
        }
    }
}

// ------------------------------------------------------------------
// Which records a publisher gets
// ------------------------------------------------------------------

/// The records a publisher publishes: the tag filter, then (for all but
/// bluesky, which dedups by score itself) the per-bill dedup, newest
/// first, then (for all but bluesky) the limit. Returned with the count
/// before the limit.
pub fn publisher_entries(
    all: &Vec<Json>,
    publisher: &Publisher,
    cli_limit: Option<Option<usize>>,
) -> (r: (Vec<Json>, usize))
    ensures
        r.1 == publisher_pool(entry_views(all@), publisher).len(),
        exists|sorted: Seq<JsonV>|
            #[trigger] sorted_newest_first(sorted, publisher_pool(entry_views(all@), publisher))
                && entry_views(r.0@) == limited(
                sorted,
                effective_limit(publisher, cli_limit),
                publisher.kind,
            ),
{
    let select: Vec<String> = match &publisher.select {
        Some(v) => crate::config::copy_strs(v),
        None => Vec::new(),
    };
    proof {
        assert(views(select@) == select_names(publisher));
    }
    let mut entries: Vec<Json> = Vec::new();
    let mut i: usize = 0;
    let ghost av = entry_views(all@);
    proof {
        assert(av.take(0) =~= Seq::<JsonV>::empty());
    }
    while i < all.len()
        invariant
            i <= all.len(),
            av == entry_views(all@),
            views(select@) == select_names(publisher),
            entry_views(entries@) == filtered_spec(av.take(i as int), views(select@)),
        decreases all.len() - i,
    {
        proof {
            assert(av.take(i + 1).drop_last() =~= av.take(i as int));
            assert(av.take(i + 1).last() == all@[i as int]@);
        }
        if filter_by_tags(&all[i], select.as_slice()) {
            let ghost before = entries@;
            entries.push(all[i].copy());
            proof {
                assert(entry_views(entries@) =~= entry_views(before).push(all@[i as int]@));
            }
        }
        i = i + 1;
    }
    proof {
        assert(av.take(all@.len() as int) =~= av);
    }
    proof {
        assert(entry_views(entries@) == filtered_spec(entry_views(all@), select_names(publisher)));
    }
    if publisher.kind != PublisherKind::Bluesky {
        entries = deduplicate_entries(entries);
    }
    let ghost deduped = entry_views(entries@);
    proof {
        assert(deduped == publisher_pool(entry_views(all@), publisher));
    }
    let sorted = sort_by_timestamp(entries);
    let limit_value = match cli_limit {
        Some(v) => v,
        None => publisher.resolved_limit(Some(100)),
    };
    let original = sorted.len();
    let mut result = sorted;
    let ghost sv = entry_views(result@);
    match limit_value {
        Some(lim) => {
            if publisher.kind != PublisherKind::Bluesky && lim < result.len() {
                result.truncate(lim);
                proof {
                    assert(entry_views(result@) =~= sv.take(lim as int));
                }
            }
        },
        None => {},
    }
    proof {
        assert(sorted_newest_first(sv, deduped));
        assert(entry_views(result@) == limited(sv, limit_value, publisher.kind));
    }
    (result, original)
}

/// The records a publisher draws from: the tag-filtered entries, deduped
/// per bill for every kind but bluesky.
pub open spec fn publisher_pool(all: Seq<JsonV>, p: &Publisher) -> Seq<JsonV> {
    let selected = filtered_spec(all, select_names(p));
    if p.kind == PublisherKind::Bluesky {
        selected
    } else {
        dedup_spec(selected)
    }
}

/// The limit in force: the CLI's, else the publisher's (default 100).
pub open spec fn effective_limit(p: &Publisher, cli_limit: Option<Option<usize>>) -> Option<usize> {
    match cli_limit {
        Some(v) => v,
        None => resolved_limit_spec(p.limit, Some(100)),
    }
}

/// The sorted records cut to the limit (bluesky applies its own).
pub open spec fn limited(sorted: Seq<JsonV>, limit: Option<usize>, kind: PublisherKind) -> Seq<JsonV> {
    match limit {
        Some(lim) => if kind != PublisherKind::Bluesky && lim < sorted.len() {
            sorted.take(lim as int)
        } else {
            sorted
        },
        None => sorted,
    }
}

/// The publisher's `select:` tag names (none when omitted).
pub open spec fn select_names(p: &Publisher) -> Seq<Seq<char>> {
    match p.select {
        Some(v) => views(v@),
        None => Seq::empty(),
    }
}

/// The entries that pass the tag filter, in order.
pub open spec fn filtered_spec(es: Seq<JsonV>, names: Seq<Seq<char>>) -> Seq<JsonV>
    decreases es.len(),
{
    if es.len() == 0 {
        Seq::empty()
    } else if tag_filter_spec(es.last(), names) {
        filtered_spec(es.drop_last(), names).push(es.last())
    } else {
        filtered_spec(es.drop_last(), names)
    }
}

// ------------------------------------------------------------------
// Which publishers run
// ------------------------------------------------------------------

/// The publishers to run: every one (in name order) when none are named;
/// otherwise the named ones, each of which must exist (the first unknown
/// one is reported).
pub fn publishers_to_run(manifest: &Manifest, requested: &Vec<String>) -> (r: Result<
    Vec<String>,
    Error,
>)
    ensures
        match r {
            Ok(names) => manifest.publish.contents().len() > 0 && views(names@) == if requested@.len()
                == 0 {
                keys_of(manifest.publish.contents())
            } else {
                views(requested@)
            } && forall|i: int|
                0 <= i < names@.len() ==> lookup_key(manifest.publish.contents(), #[trigger] views(names@)[i]) is Some,
            Err(Error::Config(m)) => (manifest.publish.contents().len() == 0 && m@
                == "govbot.yml has no `publish:` publishers to run"@) || (manifest.publish.contents().len()
                > 0 && exists|i: int|
                0 <= i < requested@.len() && lookup_key(
                    manifest.publish.contents(),
                    #[trigger] requested@[i]@,
                ) is None && (forall|j: int|
                    0 <= j < i ==> lookup_key(manifest.publish.contents(), #[trigger] requested@[j]@)
                        is Some) && m@ == "publisher '"@ + requested@[i]@
                    + "' not found in govbot.yml `publish:`"@),
        },
{
    let n = manifest.publish.len();
    if n == 0 {
        return Err(Error::Config(copy_str("govbot.yml has no `publish:` publishers to run")));
    }
    let ghost c = manifest.publish.contents();
    if requested.len() == 0 {
        let mut names: Vec<String> = Vec::new();
        let mut i: usize = 0;
        while i < n
            invariant
                i <= n,
                n == c.len(),
                c == manifest.publish.contents(),
                crate::smap::keys_sorted(c),
                views(names@) == keys_of(c).take(i as int),
            decreases n - i,
        {
            let (k, _) = manifest.publish.entry(i);
            let ghost before = names@;
            names.push(copy_str(k));
            proof {
                assert(views(names@) =~= views(before).push(c[i as int].0));
                assert(keys_of(c).take(i + 1) =~= keys_of(c).take(i as int).push(c[i as int].0));
            }
            i = i + 1;
        }
        proof {
            assert(keys_of(c).take(n as int) =~= keys_of(c));
            assert forall|i: int| 0 <= i < names@.len() implies lookup_key(
                c,
                #[trigger] views(names@)[i],
            ) is Some by {
                assert(views(names@)[i] == c[i].0);
                crate::smap::lemma_lookup_sorted(c, i);
            }
        }
        return Ok(names);
    }
    let mut i: usize = 0;
    while i < requested.len()
        invariant
            i <= requested.len(),
            c == manifest.publish.contents(),
            c.len() > 0,
            forall|j: int| 0 <= j < i ==> lookup_key(c, #[trigger] requested@[j]@) is Some,
        decreases requested.len() - i,
    {
        if manifest.publish.get(requested[i].as_str()).is_none() {
            proof {
                assert(lookup_key(c, requested@[i as int]@) is None);
            }
            return Err(
                Error::Config(
                    concat3(
                        "publisher '",
                        requested[i].as_str(),
                        "' not found in govbot.yml `publish:`",
                    ),
                ),
            );
        }
        i = i + 1;
    }
    let names = crate::config::copy_strs(requested);
    proof {
        assert(views(names@).len() == names@.len());
        assert(views(requested@).len() == requested@.len());
        assert forall|i: int| 0 <= i < names@.len() implies lookup_key(
            c,
            #[trigger] views(names@)[i],
        ) is Some by {
            assert(views(names@)[i] == views(requested@)[i]);
            assert(views(requested@)[i] == requested@[i]@);
        }
    }
    Ok(names)
}

/// `--limit` of `publish`: `none` (any case) is no limit; otherwise a
/// `usize`, or (unreadable) no override of a publisher's own limit... as
/// `Some(None)`: the CLI then lifts the limit.
pub open spec fn cli_limit_spec(limit: Option<Seq<char>>) -> Option<Option<usize>> {
    match limit {
        None => None,
        Some(s) => if eq_ignore_ascii_case(s, "none"@) {
            Some(None)
        } else {
            Some(parse_usize_spec(s))
        },
    }
}

pub fn parse_cli_limit(limit: Option<&str>) -> (r: Option<Option<usize>>)
    ensures
        r == cli_limit_spec(crate::pipeline::opt_str_view(limit)),
{
    match limit {
        None => None,
        Some(s) => if eq_ignore_ascii_case_str(s, "none") {
            Some(None)
        } else {
            Some(parse_usize(s))
        },
    }
}

/// The landing URL of the first `html` publisher in name order: its
/// `base_url` when that is not blank.
pub open spec fn html_entry_url_spec(c: Seq<(Seq<char>, Publisher)>) -> Option<Seq<char>>
    decreases c.len(),
{
    if c.len() == 0 {
        None
    } else if c[0].1.kind == PublisherKind::Html {
        match c[0].1.base_url {
            Some(u) => if all_ws(u@) {
                None
            } else {
                Some(u@)
            },
            None => None,
        }
    } else {
        html_entry_url_spec(c.drop_first())
    }
}

/// The companion `html` publisher's landing URL (see
/// `html_entry_url_spec`).
pub fn html_entry_url(manifest: &Manifest) -> (r: Option<String>)
    ensures
        opt_view(r) == html_entry_url_spec(manifest.publish.contents()),
{
    let ghost c = manifest.publish.contents();
    let n = manifest.publish.len();
    let mut i: usize = 0;
    proof {
        assert(c.skip(0) =~= c);
    }
    while i < n
        invariant
            i <= n,
            n == c.len(),
            c == manifest.publish.contents(),
            html_entry_url_spec(c) == html_entry_url_spec(c.skip(i as int)),
        decreases n - i,
    {
        let (_, p) = manifest.publish.entry(i);
        proof {
            assert(c.skip(i as int)[0] == c[i as int]);
            assert(c.skip(i as int).drop_first() =~= c.skip(i + 1));
        }
        if p.kind == PublisherKind::Html {
            return match &p.base_url {
                Some(u) => if is_blank(u.as_str()) {
                    None
                } else {
                    Some(copy_str(u.as_str()))
                },
                None => None,
            };
        }
        i = i + 1;
    }
    None
}

// ------------------------------------------------------------------
// Feed text
// ------------------------------------------------------------------

/// `s` with every `_` replaced by a space.
pub open spec fn underscores_to_spaces(s: Seq<char>) -> Seq<char> {
    s.map_values(|c: char| if c == '_' {
        ' '
    } else {
        c
    })
}

/// A word with its first character upper-cased.
pub open spec fn capitalized(w: Seq<char>) -> Seq<char> {
    if w.len() == 0 {
        Seq::empty()
    } else {
        char_uppercase(w[0]) + w.drop_first()
    }
}

/// `w` with its first character upper-cased (`transportation` →
/// `Transportation`).
pub fn capitalize_word(w: &str) -> (r: String)
    ensures
        r@ == capitalized(w@),
{
    let wc = chars_of(w);
    if wc.len() == 0 {
        return String::new();
    }
    let first = char_to_uppercase(wc[0]);
    let rest = string_from(&wc, 1, wc.len());
    proof {
        assert(wc@.subrange(1, wc@.len() as int) =~= wc@.drop_first());
    }
    concat2(first.as_str(), rest.as_str())
}

/// A tag name in title case: `_` as spaces, whitespace-separated words
/// capitalized and joined with single spaces.
pub open spec fn titlecase_spec(tag: Seq<char>) -> Seq<char> {
    join(words(underscores_to_spaces(tag)).map_values(|w: Seq<char>| capitalized(w)), " "@)
}

/// Title-case a tag name (`clean_energy` → `Clean Energy`).
pub fn titlecase_tag(tag: &str) -> (r: String)
    ensures
        r@ == titlecase_spec(tag@),
{
    let v = chars_of(tag);
    let mut spaced = String::new();
    let mut i: usize = 0;
    while i < v.len()
        invariant
            i <= v.len(),
            v@ == tag@,
            spaced@ == underscores_to_spaces(v@.take(i as int)),
        decreases v.len() - i,
    {
        let c = if v[i] == '_' {
            ' '
        } else {
            v[i]
        };
        push_char(&mut spaced, c);
        proof {
            assert(underscores_to_spaces(v@.take(i + 1)) =~= underscores_to_spaces(
                v@.take(i as int),
            ).push(c));
        }
        i = i + 1;
    }
    proof {
        assert(v@.take(v@.len() as int) =~= v@);
    }
    let ws = split_whitespace_str(spaced.as_str());
    let ghost wv = ws@.map_values(|x: String| x@);
    let mut caps: Vec<String> = Vec::new();
    let mut k: usize = 0;
    while k < ws.len()
        invariant
            k <= ws.len(),
            wv == ws@.map_values(|x: String| x@),
            views(caps@) == wv.take(k as int).map_values(|w: Seq<char>| capitalized(w)),
        decreases ws.len() - k,
    {
        let wc = chars_of(ws[k].as_str());
        let mut c = String::new();
        if wc.len() > 0 {
            let first = char_to_uppercase(wc[0]);
            let rest = string_from(&wc, 1, wc.len());
            c = concat2(first.as_str(), rest.as_str());
            proof {
                assert(wc@.subrange(1, wc@.len() as int) =~= wc@.drop_first());
            }
        }
        proof {
            assert(wv[k as int] == ws@[k as int]@);
            if wc@.len() == 0 {
                assert(c@ =~= capitalized(wv[k as int]));
            }
        }
        let ghost before = caps@;
        caps.push(c);
        proof {
            assert(views(caps@) =~= views(before).push(capitalized(wv[k as int])));
            assert(wv.take(k + 1).map_values(|w: Seq<char>| capitalized(w)) =~= wv.take(
                k as int,
            ).map_values(|w: Seq<char>| capitalized(w)).push(capitalized(wv[k as int])));
        }
        k = k + 1;
    }
    proof {
        assert(wv.take(wv.len() as int) =~= wv);
    }
    join_strs(&caps, " ")
}

fn titlecase_all(select: &Vec<String>) -> (r: Vec<String>)
    ensures
        views(r@) == views(select@).map_values(|t: Seq<char>| titlecase_spec(t)),
{
    let mut out: Vec<String> = Vec::new();
    let mut i: usize = 0;
    while i < select.len()
        invariant
            i <= select.len(),
            views(out@) == views(select@).take(i as int).map_values(
                |t: Seq<char>| titlecase_spec(t),
            ),
        decreases select.len() - i,
    {
        let ghost before = out@;
        out.push(titlecase_tag(select[i].as_str()));
        proof {
            assert(views(out@) =~= views(before).push(titlecase_spec(select@[i as int]@)));
            assert(views(select@).take(i + 1).map_values(|t: Seq<char>| titlecase_spec(t))
                =~= views(select@).take(i as int).map_values(|t: Seq<char>| titlecase_spec(t)).push(
                titlecase_spec(select@[i as int]@),
            ));
        }
        i = i + 1;
    }
    proof {
        assert(views(select@).take(select@.len() as int) =~= views(select@));
    }
    out
}

/// The title of an RSS feed: the configured one, else `Legislation`
/// preceded by the selected tags in title case joined with ` & `.
pub open spec fn feed_title_spec(title: Option<Seq<char>>, select: Seq<Seq<char>>) -> Seq<char> {
    match title {
        Some(t) => t,
        None => if select.len() == 0 {
            "Legislation"@
        } else {
            join(select.map_values(|t: Seq<char>| titlecase_spec(t)), " & "@) + " Legislation"@
        },
    }
}

/// The description of an RSS feed: the configured one, else `Legislative
/// updates` (tagged with the selected tags in title case, joined with
/// `, `).
pub open spec fn feed_description_spec(description: Option<Seq<char>>, select: Seq<Seq<char>>) -> Seq<
    char,
> {
    match description {
        Some(d) => d,
        None => if select.len() == 0 {
            "Legislative updates"@
        } else {
            "Legislative updates tagged "@ + join(
                select.map_values(|t: Seq<char>| titlecase_spec(t)),
                ", "@,
            )
        },
    }
}

pub fn feed_title(title: &Option<String>, select: &Vec<String>) -> (r: String)
    ensures
        r@ == feed_title_spec(opt_view(*title), views(select@)),
{
    match title {
        Some(t) => copy_str(t.as_str()),
        None => if select.len() == 0 {
            copy_str("Legislation")
        } else {
            let names = titlecase_all(select);
            let joined = join_strs(&names, " & ");
            concat2(joined.as_str(), " Legislation")
        },
    }
}

pub fn feed_description(description: &Option<String>, select: &Vec<String>) -> (r: String)
    ensures
        r@ == feed_description_spec(opt_view(*description), views(select@)),
{
    match description {
        Some(d) => copy_str(d.as_str()),
        None => if select.len() == 0 {
            copy_str("Legislative updates")
        } else {
            let names = titlecase_all(select);
            let joined = join_strs(&names, ", ");
            concat2("Legislative updates tagged ", joined.as_str())
        },
    }
}

/// The first present value, else the fallback: an override, then the
/// publisher's setting, then the default.
pub fn pick_setting(over: &Option<String>, configured: &Option<String>, fallback: &str) -> (r: String)
    ensures
        r@ == match opt_view(*over) {
            Some(o) => o,
            None => match opt_view(*configured) {
                Some(c) => c,
                None => fallback@,
            },
        },
{
    match over {
        Some(o) => copy_str(o.as_str()),
        None => match configured {
            Some(c) => copy_str(c.as_str()),
            None => copy_str(fallback),
        },
    }
}

/// The file a publisher writes by default: `feed.xml` (rss), `index.html`
/// (html), `feed.json` (json), `feed.duckdb` (duckdb); a Bluesky publisher
/// writes no file.
pub open spec fn default_output_file(kind: PublisherKind) -> Seq<char> {
    match kind {
        PublisherKind::Rss => "feed.xml"@,
        PublisherKind::Html => "index.html"@,
        PublisherKind::Json => "feed.json"@,
        PublisherKind::Duckdb => "feed.duckdb"@,
        PublisherKind::Bluesky => Seq::empty(),
    }
}

/// Where a publisher writes: the output directory (`--output-dir`, else the
/// publisher's, else `docs`) and the output file (`--output-file`, else the
/// publisher's, else its kind's default).
pub fn publisher_output(
    p: &Publisher,
    dir_override: &Option<String>,
    file_override: &Option<String>,
) -> (r: (String, String))
    ensures
        r.0@ == match opt_view(*dir_override) {
            Some(o) => o,
            None => match opt_view(p.output_dir) {
                Some(c) => c,
                None => "docs"@,
            },
        },
        r.1@ == match opt_view(*file_override) {
            Some(o) => o,
            None => match opt_view(p.output_file) {
                Some(c) => c,
                None => default_output_file(p.kind),
            },
        },
{
    let dir = pick_setting(dir_override, &p.output_dir, "docs");
    let fallback = match p.kind {
        PublisherKind::Rss => "feed.xml",
        PublisherKind::Html => "index.html",
        PublisherKind::Json => "feed.json",
        PublisherKind::Duckdb => "feed.duckdb",
        PublisherKind::Bluesky => "",
    };
    proof {
        reveal_strlit("");
    }
    let file = pick_setting(file_override, &p.output_file, fallback);
    (dir, file)
}

/// The title given to the HTML index: the configured one, unless blank.
pub fn html_title(title: &Option<String>) -> (r: Option<String>)
    ensures
        opt_view(r) == match opt_view(*title) {
            Some(t) => if trim(t).len() > 0 {
                Some(t)
            } else {
                None
            },
            None => None,
        },
{
    match title {
        Some(t) => if is_blank(t.as_str()) {
            None
        } else {
            Some(copy_str(t.as_str()))
        },
        None => None,
    }
}

/// The link a feed points at: the publisher's base URL, else
/// `https://example.com`.
pub fn feed_link(base_url: &Option<String>) -> (r: String)
    ensures
        r@ == match opt_view(*base_url) {
            Some(b) => b,
            None => "https://example.com"@,
        },
{
    pick_setting(&None, base_url, "https://example.com")
}

/// The records file a DuckDB publisher loads: `<name>.records.json`.
pub fn duckdb_records_file(name: &str) -> (r: String)
    ensures
        r@ == name@ + ".records.json"@,
{
    concat2(name, ".records.json")
}

/// The statement that loads the records file into the `records` table.
pub fn duckdb_load_sql(json_path: &str) -> (r: String)
    ensures
        r@ == "CREATE OR REPLACE TABLE records AS SELECT * FROM read_json_auto('"@ + json_path@
            + "');"@,
{
    let mut t = TextBuilder::new();
    t.add("CREATE OR REPLACE TABLE records AS SELECT * FROM read_json_auto('");
    t.add(json_path);
    t.add("');");
    t.text
}

// ------------------------------------------------------------------
// The publish run
// ------------------------------------------------------------------

/// One publisher's share of a publish run.
pub struct PublishJobPlan {
    pub name: String,
    /// The records it publishes.
    pub entries: Vec<Json>,
    /// How many there were before the limit.
    pub before_limit: usize,
}

/// The records of `publisher` from `records` (see `publisher_entries`).
pub open spec fn job_entries_spec(
    records: Seq<JsonV>,
    publisher: Publisher,
    cli_limit: Option<Option<usize>>,
    job: PublishJobPlan,
) -> bool {
    &&& job.before_limit == publisher_pool(records, &publisher).len()
    &&& exists|sorted: Seq<JsonV>|
        #[trigger] sorted_newest_first(sorted, publisher_pool(records, &publisher))
            && entry_views(job.entries@) == limited(
            sorted,
            effective_limit(&publisher, cli_limit),
            publisher.kind,
        )
}

/// A publish run over the records `source` gave: which publishers run (see
/// `publishers_to_run`; an unknown name fails the run before any publisher
/// runs), and for each, in order, the records it publishes under the CLI
/// limit `cli_limit` (see `parse_cli_limit` and `publisher_entries`).
pub fn publish_plan(
    manifest: &Manifest,
    requested: &Vec<String>,
    records: &Vec<Json>,
    cli_limit: Option<&str>,
) -> (r: Result<Vec<PublishJobPlan>, Error>)
    ensures
        match r {
            Ok(jobs) => manifest.publish.contents().len() > 0 && views(
                jobs@.map_values(|j: PublishJobPlan| j.name),
            ) == (if requested@.len() == 0 {
                keys_of(manifest.publish.contents())
            } else {
                views(requested@)
            }) && forall|k: int|
                0 <= k < jobs@.len() ==> (lookup_key(
                    manifest.publish.contents(),
                    #[trigger] jobs@[k].name@,
                ) matches Some(p) && job_entries_spec(
                    entry_views(records@),
                    p,
                    cli_limit_spec(crate::pipeline::opt_str_view(cli_limit)),
                    jobs@[k],
                )),
            Err(Error::Config(m)) => (manifest.publish.contents().len() == 0 && m@
                == "govbot.yml has no `publish:` publishers to run"@) || (manifest.publish.contents().len()
                > 0 && exists|i: int|
                0 <= i < requested@.len() && lookup_key(
                    manifest.publish.contents(),
                    #[trigger] requested@[i]@,
                ) is None && (forall|j: int|
                    0 <= j < i ==> lookup_key(manifest.publish.contents(), #[trigger] requested@[j]@)
                        is Some) && m@ == "publisher '"@ + requested@[i]@
                    + "' not found in govbot.yml `publish:`"@),
        },
{
    let names = publishers_to_run(manifest, requested)?;
    let cli = parse_cli_limit(cli_limit);
    let ghost c = manifest.publish.contents();
    let mut jobs: Vec<PublishJobPlan> = Vec::new();
    let mut i: usize = 0;
    while i < names.len()
        invariant
            i <= names.len(),
            c == manifest.publish.contents(),
            cli == cli_limit_spec(crate::pipeline::opt_str_view(cli_limit)),
            forall|x: int| 0 <= x < names@.len() ==> lookup_key(c, #[trigger] views(names@)[x]) is Some,
            jobs@.len() == i,
            forall|k: int| 0 <= k < i ==> #[trigger] jobs@[k].name@ == names@[k]@,
            forall|k: int|
                0 <= k < i ==> (lookup_key(c, #[trigger] jobs@[k].name@) matches Some(p)
                    && job_entries_spec(entry_views(records@), p, cli, jobs@[k])),
        decreases names.len() - i,
    {
        proof {
            assert(views(names@)[i as int] == names@[i as int]@);
        }
        let publisher = manifest.publish.get(names[i].as_str()).unwrap();
        let (entries, before_limit) = publisher_entries(records, publisher, cli);
        let job = PublishJobPlan { name: copy_str(names[i].as_str()), entries, before_limit };
        proof {
            assert(job_entries_spec(entry_views(records@), *publisher, cli, job));
        }
        jobs.push(job);
        i = i + 1;
    }
    proof {
        assert(views(jobs@.map_values(|j: PublishJobPlan| j.name)) =~= views(names@)) by {
            assert forall|k: int| 0 <= k < names@.len() implies views(
                jobs@.map_values(|j: PublishJobPlan| j.name),
            )[k] == views(names@)[k] by {
                assert(jobs@[k].name@ == names@[k]@);
            }
        }
    }
    Ok(jobs)
}

// ------------------------------------------------------------------
// The record stream
// ------------------------------------------------------------------

/// The values of the lines that are JSON values, in order.
pub open spec fn parsed_records(lines: Seq<Seq<char>>) -> Seq<JsonV>
    decreases lines.len(),
{
    if lines.len() == 0 {
        Seq::empty()
    } else {
        match json_text_value(lines.last()) {
            Some(v) => parsed_records(lines.drop_last()).push(v),
            None => parsed_records(lines.drop_last()),
        }
    }
}

/// A line that is no JSON value is reported unless it is build output
/// (holds `Compiling` or `Finished`).
pub open spec fn reported(line: Seq<char>) -> bool {
    json_text_value(line) is None && !crate::text::contains(line, "Compiling"@)
        && !crate::text::contains(line, "Finished"@)
}

/// How many lines are reported.
pub open spec fn reported_count(lines: Seq<Seq<char>>) -> nat
    decreases lines.len(),
{
    if lines.len() == 0 {
        0
    } else {
        reported_count(lines.drop_last()) + if reported(lines.last()) {
            1nat
        } else {
            0nat
        }
    }
}

/// The lines of a record stream: each line trimmed, blank ones dropped.
pub open spec fn stream_lines(text: Seq<char>) -> Seq<Seq<char>> {
    trimmed_nonempty(split(text, "\n"@))
}

/// Reads the record stream `source` writes: one JSON value per non-blank
/// line. Returns the records in order, and the parse errors of the lines to
/// warn about (see `reported`).
pub fn parse_record_stream(text: &str) -> (r: (Vec<Json>, Vec<String>))
    ensures
        entry_views(r.0@) == parsed_records(stream_lines(text@)),
        r.1@.len() == reported_count(stream_lines(text@)),
{
    proof {
        reveal_strlit("\n");
    }
    let lines = split_trimmed(text, "\n");
    let ghost ls = views(lines@);
    let mut records: Vec<Json> = Vec::new();
    let mut errors: Vec<String> = Vec::new();
    let mut i: usize = 0;
    proof {
        assert(ls.take(0) =~= Seq::<Seq<char>>::empty());
        assert(entry_views(records@) =~= Seq::<JsonV>::empty());
    }
    while i < lines.len()
        invariant
            i <= lines.len(),
            ls == views(lines@),
            entry_views(records@) == parsed_records(ls.take(i as int)),
            errors@.len() == reported_count(ls.take(i as int)),
        decreases lines.len() - i,
    {
        proof {
            assert(ls.take(i + 1).drop_last() =~= ls.take(i as int));
            assert(ls.take(i + 1).last() == lines@[i as int]@);
        }
        let line = lines[i].as_str();
        match parse_json_text(line) {
            Ok(j) => {
                let ghost before = records@;
                records.push(j);
                proof {
                    assert(entry_views(records@) =~= entry_views(before).push(records@.last()@));
                }
            },
            Err(e) => {
                if !crate::text::contains_str(line, "Compiling") && !crate::text::contains_str(
                    line,
                    "Finished",
                ) {
                    errors.push(e);
                }
            },
        }
        i = i + 1;
    }
    proof {
        assert(ls.take(ls.len() as int) =~= ls);
    }
    (records, errors)
}

} // verus!
