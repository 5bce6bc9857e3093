//! Stream records: the `{id, text, kind}` document a classifier consumes,
//! the `default` projection of a joined record, field extraction for
//! `--join bill.<path>`, and the deep prune applied before a record is
//! written.
use vstd::prelude::*;
use crate::json::{
    Json, JsonV, and_get, array_opt, as_str, entries_get, get, get_opt, jv, jvo, jvs,
    lemma_jvo_index, lemma_jvs_index, lookup, or_opt, str_opt,
};
use crate::num::{parse_usize, parse_usize_spec};
use crate::route::{bill_dir_from_metadata_path, bill_dir_of, lemma_bill_dir_of_metadata_path, opt_view};
use crate::selectors::{
    ocd_files_extract_subjects, ocd_files_select_default, select_default_text, subjects_of,
};
use crate::text::{
    before_first, before_first_str, concat2, concat3, contains, copy_str, ends_with_str,
    free_of, is_suffix, lemma_find_first, lemma_find_props, occurs_at, views,
};

verus! {

// ------------------------------------------------------------------
// The `docs` document
// ------------------------------------------------------------------

/// `log.bill_id` (or `log.bill_identifier`) of an entry, as a string.
pub open spec fn log_bill_id(e: JsonV) -> Option<Seq<char>> {
    let log = get(e, "log"@);
    str_opt(or_opt(get_opt(log, "bill_id"@), get_opt(log, "bill_identifier"@)))
}

/// The on-disk bill directory named by `sources.bill`.
pub open spec fn canonical_bill_dir(e: JsonV) -> Option<Seq<char>> {
    match str_opt(get_opt(get(e, "sources"@), "bill"@)) {
        Some(p) => bill_dir_of(p),
        None => None,
    }
}

/// `sources.log` cut at the first `/logs/`.
pub open spec fn stripped_log_path(e: JsonV) -> Option<Seq<char>> {
    match str_opt(get_opt(get(e, "sources"@), "log"@)) {
        Some(p) => Some(before_first(p, "/logs/"@)),
        None => None,
    }
}

/// True when `path` already ends in `/bills/<d>` for the given `d`.
pub open spec fn ends_in_bill(path: Seq<char>, d: Option<Seq<char>>) -> bool {
    match d {
        Some(d) => is_suffix("/bills/"@ + d, path),
        None => false,
    }
}

/// The document id of an entry: the bill's dataset-relative directory.
/// A stripped log path that already ends in `/bills/<dir>` (for the
/// canonical dir or the log's bill id) is kept; otherwise the canonical
/// dir, or failing that the log's bill id, is appended as `/bills/<id>`.
/// Without a log path the canonical dir, the bill id, or `""` stands.
pub open spec fn doc_id(e: JsonV) -> Seq<char> {
    let canon = canonical_bill_dir(e);
    let bid = log_bill_id(e);
    match stripped_log_path(e) {
        Some(path) => if ends_in_bill(path, canon) || ends_in_bill(path, bid) {
            path
        } else {
            match canon {
                Some(c) => path + "/bills/"@ + c,
                None => match bid {
                    Some(b) => path + "/bills/"@ + b,
                    None => path,
                },
            }
        },
        None => match or_opt(canon, bid) {
            Some(x) => x,
            None => Seq::empty(),
        },
    }
}

/// The log path of an entry already names its bill directory.
pub open spec fn names_its_bill(e: JsonV, path: Seq<char>) -> bool {
    ends_in_bill(path, canonical_bill_dir(e)) || ends_in_bill(path, log_bill_id(e))
}

/// The bill an entry's id is keyed by: its canonical directory, or failing
/// that its log's bill id.
pub open spec fn bill_dir_key(e: JsonV) -> Option<Seq<char>> {
    or_opt(canonical_bill_dir(e), log_bill_id(e))
}

/// Distinct bills under one session's logs get distinct ids: for two
/// entries whose logs sit in the same directory, the ids differ unless both
/// log paths already name a bill, or one id would fall back to the bare
/// directory, or both are keyed by the same bill.
pub proof fn law_distinct_bills_get_distinct_ids(e1: JsonV, e2: JsonV, path: Seq<char>)
    requires
        stripped_log_path(e1) == Some(path),
        stripped_log_path(e2) == Some(path),
        !(names_its_bill(e1, path) && names_its_bill(e2, path)),
        names_its_bill(e1, path) || bill_dir_key(e1) is Some,
        names_its_bill(e2, path) || bill_dir_key(e2) is Some,
        names_its_bill(e1, path) || names_its_bill(e2, path) || bill_dir_key(e1) != bill_dir_key(e2),
    ensures
        doc_id(e1) != doc_id(e2),
{
    reveal_strlit("/bills/");
    let sep = "/bills/"@;
    let n = path.len() + sep.len();
    if !names_its_bill(e1, path) {
        assert(doc_id(e1) == path + sep + bill_dir_key(e1)->0);
    }
    if !names_its_bill(e2, path) {
        assert(doc_id(e2) == path + sep + bill_dir_key(e2)->0);
    }
    if !names_its_bill(e1, path) && !names_its_bill(e2, path) {
        let k1 = bill_dir_key(e1)->0;
        let k2 = bill_dir_key(e2)->0;
        assert((path + sep + k1).skip(n as int) =~= k1);
        assert((path + sep + k2).skip(n as int) =~= k2);
    }
}

/// A log path `<dir>/logs/<file>` is cut back to `<dir>`, when no `/logs/`
/// occurs in `<dir>/logs` (so the first one is the one after `<dir>`).
proof fn lemma_cut_at_logs(dir: Seq<char>, file: Seq<char>)
    requires
        !contains(dir + "/logs"@, "/logs/"@),
    ensures
        before_first(dir + "/logs/"@ + file, "/logs/"@) == dir,
{
    reveal_strlit("/logs/");
    reveal_strlit("/logs");
    let sep = "/logs/"@;
    let s = dir + sep + file;
    let head = dir + "/logs"@;
    let n = dir.len() as int;
    assert(s.subrange(n, n + 6) =~= sep);
    lemma_find_props(head, sep);
    assert forall|j: int| 0 <= j < n implies !occurs_at(s, sep, j) by {
        if occurs_at(s, sep, j) {
            assert(s.subrange(j, j + 6) =~= head.subrange(j, j + 6));
            assert(occurs_at(head, sep, j));
        }
    }
    lemma_find_first(s, sep, n);
    assert(s.take(n) =~= dir);
}

/// An entry of a session-level log directory, whose bill join names its
/// directory, is identified by that directory: a log at
/// `<dir>/logs/<file>` with `sources.bill` at
/// `<root>/bills/<b>/metadata.json` gets the id `<dir>/bills/<b>`. This
/// holds when `<b>` is a non-empty path segment, no `/logs/` occurs in
/// `<dir>/logs`, and `<dir>` does not already end in a bill segment for
/// `<b>` or the log's bill id.
pub proof fn law_session_log_id_is_bill_dir(
    e: JsonV,
    dir: Seq<char>,
    file: Seq<char>,
    root: Seq<char>,
    b: Seq<char>,
)
    requires
        str_opt(get_opt(get(e, "sources"@), "log"@)) == Some(dir + "/logs/"@ + file),
        str_opt(get_opt(get(e, "sources"@), "bill"@)) == Some(
            root + "/bills/"@ + b + "/metadata.json"@,
        ),
        b.len() > 0,
        free_of(b, '/'),
        !contains(dir + "/logs"@, "/logs/"@),
        !ends_in_bill(dir, Some(b)),
        !ends_in_bill(dir, log_bill_id(e)),
    ensures
        doc_id(e) == dir + "/bills/"@ + b,
{
    lemma_bill_dir_of_metadata_path(root, b);
    lemma_cut_at_logs(dir, file);
    assert(canonical_bill_dir(e) == Some(b));
    assert(stripped_log_path(e) == Some(dir));
}

/// Distinct bills under one session's logs get distinct ids: two such
/// entries (see `law_session_log_id_is_bill_dir`) of different bill
/// directories never share an id, and so their `docs` documents never
/// share an `id`.
pub proof fn law_session_bills_get_distinct_ids(
    e1: JsonV,
    e2: JsonV,
    dir: Seq<char>,
    f1: Seq<char>,
    f2: Seq<char>,
    root1: Seq<char>,
    root2: Seq<char>,
    b1: Seq<char>,
    b2: Seq<char>,
)
    requires
        str_opt(get_opt(get(e1, "sources"@), "log"@)) == Some(dir + "/logs/"@ + f1),
        str_opt(get_opt(get(e2, "sources"@), "log"@)) == Some(dir + "/logs/"@ + f2),
        str_opt(get_opt(get(e1, "sources"@), "bill"@)) == Some(
            root1 + "/bills/"@ + b1 + "/metadata.json"@,
        ),
        str_opt(get_opt(get(e2, "sources"@), "bill"@)) == Some(
            root2 + "/bills/"@ + b2 + "/metadata.json"@,
        ),
        b1.len() > 0,
        b2.len() > 0,
        free_of(b1, '/'),
        free_of(b2, '/'),
        b1 != b2,
        !contains(dir + "/logs"@, "/logs/"@),
        !ends_in_bill(dir, Some(b1)),
        !ends_in_bill(dir, log_bill_id(e1)),
        !ends_in_bill(dir, Some(b2)),
        !ends_in_bill(dir, log_bill_id(e2)),
    ensures
        doc_id(e1) != doc_id(e2),
        get(doc_of(e1), "id"@) != get(doc_of(e2), "id"@),
{
    reveal_strlit("/bills/");
    law_session_log_id_is_bill_dir(e1, dir, f1, root1, b1);
    law_session_log_id_is_bill_dir(e2, dir, f2, root2, b2);
    let n = dir.len() + 7;
    assert((dir + "/bills/"@ + b1).skip(n as int) =~= b1);
    assert((dir + "/bills/"@ + b2).skip(n as int) =~= b2);
    assert(get(doc_of(e1), "id"@) == Some(JsonV::Str(doc_id(e1))));
    assert(get(doc_of(e2), "id"@) == Some(JsonV::Str(doc_id(e2))));
}

/// String values as JSON strings.
pub open spec fn str_values(s: Seq<Seq<char>>) -> Seq<JsonV> {
    s.map_values(|x: Seq<char>| JsonV::Str(x))
}

/// The `{id, text, kind: "docs"}` document of an entry, with `subjects`
/// only when the bill carries non-blank ones.
pub open spec fn doc_of(e: JsonV) -> JsonV {
    JsonV::Object(
        seq![
            ("id"@, JsonV::Str(doc_id(e))),
            ("text"@, JsonV::Str(select_default_text(e))),
            ("kind"@, JsonV::Str("docs"@)),
        ] + match subjects_of(e) {
            Some(s) => seq![("subjects"@, JsonV::Array(str_values(s)))],
            None => Seq::empty(),
        },
    )
}

fn str_of(o: Option<&Json>) -> (r: Option<String>)
    ensures
        opt_view(r) == str_opt(crate::json::opt_jv(o)),
{
    match o {
        Some(x) => match x.as_str() {
            Some(t) => Some(copy_str(t)),
            None => None,
        },
        None => None,
    }
}

fn log_bill_id_exec(entry: &Json) -> (r: Option<String>)
    ensures
        opt_view(r) == log_bill_id(entry@),
{
    match entry.get("log") {
        Some(l) => match l.get("bill_id") {
            Some(x) => str_of(Some(x)),
            None => str_of(l.get("bill_identifier")),
        },
        None => None,
    }
}

fn ends_in_bill_exec(path: &str, d: &Option<String>) -> (b: bool)
    ensures
        b == ends_in_bill(path@, opt_view(*d)),
{
    match d {
        Some(d) => {
            let suffix = concat2("/bills/", d.as_str());
            ends_with_str(path, suffix.as_str())
        },
        None => false,
    }
}

/// The document id of an entry (see `doc_id`).
pub fn ocd_entry_id(entry: &Json) -> (r: String)
    ensures
        r@ == doc_id(entry@),
{
    let bill_id = log_bill_id_exec(entry);
    let sources = entry.get("sources");
    let canonical = match str_of(and_get(sources, "bill")) {
        Some(p) => bill_dir_from_metadata_path(p.as_str()),
        None => None,
    };
    let stripped = match str_of(and_get(sources, "log")) {
        Some(p) => Some(before_first_str(p.as_str(), "/logs/")),
        None => None,
    };
    match stripped {
        Some(path) => {
            if ends_in_bill_exec(path.as_str(), &canonical) || ends_in_bill_exec(
                path.as_str(),
                &bill_id,
            ) {
                path
            } else {
                match canonical {
                    Some(c) => concat3(path.as_str(), "/bills/", c.as_str()),
                    None => match bill_id {
                        Some(b) => concat3(path.as_str(), "/bills/", b.as_str()),
                        None => path,
                    },
                }
            }
        },
        None => match canonical {
            Some(c) => c,
            None => match bill_id {
                Some(b) => b,
                None => String::new(),
            },
        },
    }
}

/// Collapse a fully joined entry into the `{id, text, kind: "docs"}`
/// document a classifier consumes. `id` is the bill's dataset-relative
/// directory (see `doc_id`), `text` the bill's full text, and `subjects`
/// the OCD `subject:` list when it holds anything non-blank.
pub fn ocd_entry_to_doc(entry: &Json) -> (r: Json)
    ensures
        r@ == doc_of(entry@),
{
    let id = ocd_entry_id(entry);
    let text = ocd_files_select_default(entry);
    let mut out: Vec<(String, Json)> = Vec::new();
    out.push((copy_str("id"), Json::Str(id)));
    out.push((copy_str("text"), Json::Str(text)));
    out.push((copy_str("kind"), Json::Str(copy_str("docs"))));
    let ghost base = out@;
    proof {
        lemma_jvo_index(out@);
        assert(jvo(out@) =~= seq![
            ("id"@, JsonV::Str(doc_id(entry@))),
            ("text"@, JsonV::Str(select_default_text(entry@))),
            ("kind"@, JsonV::Str("docs"@)),
        ]);
    }
    match ocd_files_extract_subjects(entry) {
        Some(subjects) => {
            let arr = str_array(&subjects);
            out.push((copy_str("subjects"), arr));
            proof {
                assert(out@.drop_last() == base);
                assert(jvo(out@) == jvo(base).push(("subjects"@, arr@)));
                assert(jvo(out@) =~= jvo(base) + seq![("subjects"@, arr@)]);
            }
        },
        None => {
            proof {
                assert(jvo(out@) =~= jvo(out@) + Seq::<(Seq<char>, JsonV)>::empty());
            }
        },
    }
    Json::Object(out)
}

/// A JSON array of the given strings.
pub fn str_array(items: &Vec<String>) -> (r: Json)
    ensures
        r@ == JsonV::Array(str_values(views(items@))),
{
    let mut out: Vec<Json> = Vec::new();
    let mut i: usize = 0;
    while i < items.len()
        invariant
            i <= items.len(),
            jvs(out@) == str_values(views(items@).take(i as int)),
        decreases items.len() - i,
    {
        let ghost before = out@;
        let item = Json::Str(copy_str(items[i].as_str()));
        assert(item@ == JsonV::Str(items@[i as int]@));
        out.push(item);
        proof {
            assert(out@.drop_last() == before);
            assert(out@.last() == item);
            assert(jvs(out@) == jvs(before).push(JsonV::Str(items@[i as int]@)));
            assert(str_values(views(items@).take(i + 1)) =~= str_values(
                views(items@).take(i as int),
            ).push(JsonV::Str(items@[i as int]@)));
        }
        i = i + 1;
    }
    proof {
        assert(views(items@).take(items@.len() as int) =~= views(items@));
    }
    Json::Array(out)
}

// ------------------------------------------------------------------
// Deep prune
// ------------------------------------------------------------------

/// A value with every `null`, empty string, empty array and empty object
/// removed, bottom-up; a value that ends up empty becomes `null` (which its
/// parent then drops).
pub open spec fn prune(j: JsonV) -> JsonV
    decreases j,
{
    match j {
        JsonV::Str(s) => if s.len() == 0 {
            JsonV::Null
        } else {
            JsonV::Str(s)
        },
        JsonV::Array(a) => if prune_seq(a).len() == 0 {
            JsonV::Null
        } else {
            JsonV::Array(prune_seq(a))
        },
        JsonV::Object(m) => if prune_entries(m).len() == 0 {
            JsonV::Null
        } else {
            JsonV::Object(prune_entries(m))
        },
        _ => j,
    }
}

/// The pruned items that are not `null`, in order.
pub open spec fn prune_seq(a: Seq<JsonV>) -> Seq<JsonV>
    decreases a,
{
    if a.len() == 0 {
        Seq::empty()
    } else {
        let r = prune_seq(a.drop_last());
        let x = prune(a.last());
        if x is Null {
            r
        } else {
            r.push(x)
        }
    }
}

/// The entries whose pruned value is not `null`, pruned, in order.
pub open spec fn prune_entries(m: Seq<(Seq<char>, JsonV)>) -> Seq<(Seq<char>, JsonV)>
    decreases m,
{
    if m.len() == 0 {
        Seq::empty()
    } else {
        let r = prune_entries(m.drop_last());
        let x = prune(m.last().1);
        if x is Null {
            r
        } else {
            r.push((m.last().0, x))
        }
    }
}

/// A value holding no `null`, empty string, empty array or empty object,
/// at any depth.
pub open spec fn is_clean(j: JsonV) -> bool
    decreases j,
{
    match j {
        JsonV::Null => false,
        JsonV::Str(s) => s.len() > 0,
        JsonV::Array(a) => a.len() > 0 && all_clean(a),
        JsonV::Object(m) => m.len() > 0 && all_clean_entries(m),
        _ => true,
    }
}

pub open spec fn all_clean(a: Seq<JsonV>) -> bool
    decreases a,
{
    a.len() == 0 || (all_clean(a.drop_last()) && is_clean(a.last()))
}

pub open spec fn all_clean_entries(m: Seq<(Seq<char>, JsonV)>) -> bool
    decreases m,
{
    m.len() == 0 || (all_clean_entries(m.drop_last()) && is_clean(m.last().1))
}

/// Pruning leaves nothing to prune: the result is `null` or clean.
pub proof fn lemma_prune_clean(j: JsonV)
    ensures
        prune(j) is Null || is_clean(prune(j)),
    decreases j,
{
    match j {
        JsonV::Array(a) => {
            lemma_prune_seq_clean(a);
        },
        JsonV::Object(m) => {
            lemma_prune_entries_clean(m);
        },
        _ => {},
    }
}

pub proof fn lemma_prune_seq_clean(a: Seq<JsonV>)
    ensures
        all_clean(prune_seq(a)),
    decreases a,
{
    if a.len() > 0 {
        lemma_prune_seq_clean(a.drop_last());
        lemma_prune_clean(a.last());
        let r = prune_seq(a.drop_last());
        let x = prune(a.last());
        if !(x is Null) {
            assert(r.push(x).drop_last() =~= r);
        }
    }
}

pub proof fn lemma_prune_entries_clean(m: Seq<(Seq<char>, JsonV)>)
    ensures
        all_clean_entries(prune_entries(m)),
    decreases m,
{
    if m.len() > 0 {
        lemma_prune_entries_clean(m.drop_last());
        lemma_prune_clean(m.last().1);
        let r = prune_entries(m.drop_last());
        let x = prune(m.last().1);
        if !(x is Null) {
            assert(r.push((m.last().0, x)).drop_last() =~= r);
        }
    }
}

/// A clean value is left as it is.
pub proof fn lemma_prune_fixes_clean(j: JsonV)
    requires
        is_clean(j),
    ensures
        prune(j) == j,
    decreases j,
{
    match j {
        JsonV::Array(a) => {
            lemma_prune_seq_fixes_clean(a);
        },
        JsonV::Object(m) => {
            lemma_prune_entries_fixes_clean(m);
        },
        _ => {},
    }
}

pub proof fn lemma_prune_seq_fixes_clean(a: Seq<JsonV>)
    requires
        all_clean(a),
    ensures
        prune_seq(a) == a,
    decreases a,
{
    if a.len() > 0 {
        lemma_prune_seq_fixes_clean(a.drop_last());
        lemma_prune_fixes_clean(a.last());
        assert(a.drop_last().push(a.last()) =~= a);
    }
}

pub proof fn lemma_prune_entries_fixes_clean(m: Seq<(Seq<char>, JsonV)>)
    requires
        all_clean_entries(m),
    ensures
        prune_entries(m) == m,
    decreases m,
{
    if m.len() > 0 {
        lemma_prune_entries_fixes_clean(m.drop_last());
        lemma_prune_fixes_clean(m.last().1);
        assert(m.drop_last().push((m.last().0, m.last().1)) =~= m);
    }
}

/// Pruning twice is pruning once, and a pruned value holds no `null`,
/// empty string, empty array or empty object at any depth.
pub proof fn law_prune_idempotent(j: JsonV)
    ensures
        prune(prune(j)) == prune(j),
        prune(j) is Null || is_clean(prune(j)),
{
    lemma_prune_clean(j);
    if !(prune(j) is Null) {
        lemma_prune_fixes_clean(prune(j));
    }
}

fn prune_ref(value: &Json) -> (r: Json)
    ensures
        r@ == prune(value@),
    decreases value,
{
    match value {
        Json::Str(s) => {
            if s.unicode_len() == 0 {
                Json::Null
            } else {
                Json::Str(copy_str(s.as_str()))
            }
        },
        Json::Array(a) => {
            let mut out: Vec<Json> = Vec::new();
            let mut i: usize = 0;
            proof {
                assert(a@.take(0) =~= Seq::<Json>::empty());
            }
            while i < a.len()
                invariant
                    i <= a.len(),
                    *value == Json::Array(*a),
                    jvs(out@) == prune_seq(jvs(a@.take(i as int))),
                decreases a.len() - i,
            {
                proof {
                    assert(decreases_to!(*value => value->Array_0));
                    assert(decreases_to!(*a => a[i as int]));
                    assert(a@.take(i + 1).drop_last() =~= a@.take(i as int));
                    assert(jvs(a@.take(i + 1)).drop_last() =~= jvs(a@.take(i as int)));
                }
                let x = prune_ref(&a[i]);
                if !x.is_null() {
                    let ghost before = out@;
                    out.push(x);
                    proof {
                        assert(out@.drop_last() == before);
                    }
                }
                i = i + 1;
            }
            proof {
                assert(a@.take(a@.len() as int) =~= a@);
            }
            if out.len() == 0 {
                Json::Null
            } else {
                Json::Array(out)
            }
        },
        Json::Object(m) => {
            let mut out: Vec<(String, Json)> = Vec::new();
            let mut i: usize = 0;
            proof {
                assert(m@.take(0) =~= Seq::<(String, Json)>::empty());
            }
            while i < m.len()
                invariant
                    i <= m.len(),
                    *value == Json::Object(*m),
                    jvo(out@) == prune_entries(jvo(m@.take(i as int))),
                decreases m.len() - i,
            {
                proof {
                    assert(decreases_to!(*value => value->Object_0));
                    assert(decreases_to!(*m => m[i as int]));
                    assert(decreases_to!(m[i as int] => m[i as int].1));
                    assert(m@.take(i + 1).drop_last() =~= m@.take(i as int));
                    assert(jvo(m@.take(i + 1)).drop_last() =~= jvo(m@.take(i as int)));
                }
                let x = prune_ref(&m[i].1);
                if !x.is_null() {
                    let ghost before = out@;
                    let k = copy_str(m[i].0.as_str());
                    out.push((k, x));
                    proof {
                        assert(out@.drop_last() == before);
                    }
                }
                i = i + 1;
            }
            proof {
                assert(m@.take(m@.len() as int) =~= m@);
            }
            if out.len() == 0 {
                Json::Null
            } else {
                Json::Object(out)
            }
        },
        Json::Null => Json::Null,
        Json::Bool(b) => Json::Bool(*b),
        Json::Number(n) => Json::Number(copy_str(n.as_str())),
    }
}

/// Deep prune: remove `null`, empty strings, empty arrays and empty objects
/// at every depth, so that a written record carries only present values.
pub fn deep_prune_json(value: Json) -> (r: Json)
    ensures
        r@ == prune(value@),
{
    prune_ref(&value)
}

// ------------------------------------------------------------------
// Field paths
// ------------------------------------------------------------------

/// The value at `path` below `v`: object members by key, array items by a
/// `usize` index; `None` where a step does not exist.
pub open spec fn extract(v: JsonV, path: Seq<Seq<char>>) -> Option<JsonV>
    decreases path.len(),
{
    if path.len() == 0 {
        Some(v)
    } else {
        match v {
            JsonV::Object(m) => match entries_get(m, path[0]) {
                Some(x) => extract(x, path.drop_first()),
                None => None,
            },
            JsonV::Array(a) => match parse_usize_spec(path[0]) {
                Some(i) => if i < a.len() {
                    extract(a[i as int], path.drop_first())
                } else {
                    None
                },
                None => None,
            },
            _ => None,
        }
    }
}

/// Extract a value from JSON by a field path (e.g. `["title"]` or
/// `["actions", "0", "description"]`).
pub fn extract_json_field(value: &Json, field_path: &[String]) -> (r: Option<Json>)
    ensures
        opt_jv_owned(r) == extract(value@, views(field_path@)),
{
    let mut current = value;
    let mut i: usize = 0;
    proof {
        assert(views(field_path@).skip(0) =~= views(field_path@));
    }
    while i < field_path.len()
        invariant
            i <= field_path.len(),
            extract(value@, views(field_path@)) == extract(
                current@,
                views(field_path@).skip(i as int),
            ),
        decreases field_path.len() - i,
    {
        let ghost rest = views(field_path@).skip(i as int);
        proof {
            assert(rest[0] == field_path@[i as int]@);
            assert(rest.drop_first() =~= views(field_path@).skip(i + 1));
        }
        let field = field_path[i].as_str();
        match current {
            Json::Object(m) => {
                match lookup(m, field) {
                    Some(x) => {
                        current = x;
                    },
                    None => {
                        return None;
                    },
                }
            },
            Json::Array(arr) => {
                match parse_usize(field) {
                    Some(idx) => {
                        if idx < arr.len() {
                            proof {
                                lemma_jvs_index(arr@);
                            }
                            current = &arr[idx];
                        } else {
                            proof {
                                lemma_jvs_index(arr@);
                            }
                            return None;
                        }
                    },
                    None => {
                        return None;
                    },
                }
            },
            _ => {
                return None;
            },
        }
        i = i + 1;
    }
    proof {
        assert(views(field_path@).skip(field_path@.len() as int) =~= Seq::<Seq<char>>::empty());
    }
    Some(current.copy())
}

pub open spec fn opt_jv_owned(o: Option<Json>) -> Option<JsonV> {
    match o {
        Some(x) => Some(x@),
        None => None,
    }
}

// ------------------------------------------------------------------
// The `default` projection
// ------------------------------------------------------------------

/// A one-entry list when the value is present.
pub open spec fn entry_if(k: Seq<char>, o: Option<JsonV>) -> Seq<(Seq<char>, JsonV)> {
    match o {
        Some(x) => seq![(k, x)],
        None => Seq::empty(),
    }
}

/// The `log` object of the projection: `action` and `bill_id` only.
pub open spec fn projected_log(l: JsonV) -> Seq<(Seq<char>, JsonV)> {
    entry_if("action"@, get(l, "action"@)) + entry_if(
        "bill_id"@,
        or_opt(get(l, "bill_id"@), get(l, "bill_identifier"@)),
    )
}

/// The `bill` object of the projection: title, abstracts, subject,
/// identifier, session and organization, where present.
pub open spec fn projected_bill(b: JsonV) -> Seq<(Seq<char>, JsonV)> {
    entry_if("title"@, get(b, "title"@)) + entry_if("abstracts"@, get(b, "abstracts"@))
        + entry_if("subject"@, get(b, "subject"@)) + entry_if(
        "identifier"@,
        get(b, "identifier"@),
    ) + entry_if("legislative_session"@, get(b, "legislative_session"@)) + entry_if(
        "from_organization"@,
        get(b, "from_organization"@),
    )
}

/// A nested object entry, present only when it has members.
pub open spec fn object_if(k: Seq<char>, m: Seq<(Seq<char>, JsonV)>) -> Seq<(Seq<char>, JsonV)> {
    if m.len() > 0 {
        seq![(k, JsonV::Object(m))]
    } else {
        Seq::empty()
    }
}

/// The `default` selection of a joined record: `id` (the log's bill id),
/// the trimmed `log` and `bill` objects, `tags` (`null` when absent), and
/// `sources` and `timestamp` as they are.
pub open spec fn project_default(v: JsonV) -> JsonV {
    JsonV::Object(
        entry_if(
            "id"@,
            match log_bill_id(v) {
                Some(s) => Some(JsonV::Str(s)),
                None => None,
            },
        ) + match get(v, "log"@) {
            Some(l) => object_if("log"@, projected_log(l)),
            None => Seq::empty(),
        } + match get(v, "bill"@) {
            Some(b) => object_if("bill"@, projected_bill(b)),
            None => Seq::empty(),
        } + seq![
            ("tags"@, match get(v, "tags"@) {
                Some(t) => t,
                None => JsonV::Null,
            }),
        ] + entry_if("sources"@, get(v, "sources"@)) + entry_if(
            "timestamp"@,
            get(v, "timestamp"@),
        ),
    )
}

/// Appends `(key, value.key)` when `value` has that member.
fn copy_member(out: &mut Vec<(String, Json)>, value: &Json, key: &str)
    ensures
        jvo(final(out)@) == jvo(old(out)@) + entry_if(key@, get(value@, key@)),
{
    match value.get(key) {
        Some(x) => {
            let ghost before = out@;
            out.push((copy_str(key), x.copy()));
            proof {
                assert(out@.drop_last() == before);
                assert(jvo(out@) =~= jvo(before) + entry_if(key@, get(value@, key@)));
            }
        },
        None => {
            proof {
                assert(jvo(out@) =~= jvo(out@) + Seq::<(Seq<char>, JsonV)>::empty());
            }
        },
    }
}

fn projected_log_exec(l: &Json) -> (r: Vec<(String, Json)>)
    ensures
        jvo(r@) == projected_log(l@),
{
    let mut out: Vec<(String, Json)> = Vec::new();
    proof {
        assert(jvo(out@) =~= Seq::<(Seq<char>, JsonV)>::empty());
    }
    copy_member(&mut out, l, "action");
    let ghost mid = jvo(out@);
    let id = match l.get("bill_id") {
        Some(x) => Some(x),
        None => l.get("bill_identifier"),
    };
    match id {
        Some(x) => {
            let ghost before = out@;
            let e = (copy_str("bill_id"), x.copy());
            let ghost ge = e;
            out.push(e);
            proof {
                assert(out@.drop_last() == before);
                assert(out@.last() == ge);
                assert(jvo(out@) =~= mid.push(("bill_id"@, x@)));
            }
        },
        None => {},
    }
    proof {
        assert(jvo(out@) =~= projected_log(l@));
    }
    out
}

fn projected_bill_exec(b: &Json) -> (r: Vec<(String, Json)>)
    ensures
        jvo(r@) == projected_bill(b@),
{
    let mut out: Vec<(String, Json)> = Vec::new();
    proof {
        assert(jvo(out@) =~= Seq::<(Seq<char>, JsonV)>::empty());
    }
    copy_member(&mut out, b, "title");
    copy_member(&mut out, b, "abstracts");
    copy_member(&mut out, b, "subject");
    let ghost mid = jvo(out@);
    copy_member(&mut out, b, "identifier");
    copy_member(&mut out, b, "legislative_session");
    copy_member(&mut out, b, "from_organization");
    proof {
        assert(jvo(out@) =~= projected_bill(b@));
    }
    out
}

fn push_object_if(out: &mut Vec<(String, Json)>, key: &str, m: Vec<(String, Json)>)
    ensures
        jvo(final(out)@) == jvo(old(out)@) + object_if(key@, jvo(m@)),
{
    proof {
        lemma_jvo_index(m@);
    }
    if m.len() > 0 {
        let ghost before = out@;
        let ghost mv = jvo(m@);
        let entry = (copy_str(key), Json::Object(m));
        let ghost ge = entry;
        assert(ge.1@ == JsonV::Object(mv));
        out.push(entry);
        proof {
            assert(out@.drop_last() == before);
            assert(out@.last() == ge);
            assert(jvo(out@) =~= jvo(before) + object_if(key@, mv));
        }
    } else {
        proof {
            assert(jvo(out@) =~= jvo(out@) + Seq::<(Seq<char>, JsonV)>::empty());
        }
    }
}

/// The `default` selection of a joined record (see `project_default`).
pub fn select_default_fields(v: &Json) -> (r: Json)
    ensures
        r@ == project_default(v@),
{
    let mut out: Vec<(String, Json)> = Vec::new();
    let log = v.get("log");
    match log_bill_id_exec(v) {
        Some(id) => {
            let e = (copy_str("id"), Json::Str(id));
            let ghost ge = e;
            out.push(e);
            proof {
                assert(out@ == seq![ge]);
                lemma_jvo_index(out@);
                assert(jvo(out@) =~= seq![("id"@, ge.1@)]);
            }
        },
        None => {},
    }
    let ghost s1 = jvo(out@);
    proof {
        assert(s1 =~= entry_if(
            "id"@,
            match log_bill_id(v@) {
                Some(s) => Some(JsonV::Str(s)),
                None => None,
            },
        ));
    }
    match log {
        Some(l) => {
            let lo = projected_log_exec(l);
            push_object_if(&mut out, "log", lo);
        },
        None => {},
    }
    let ghost s2 = jvo(out@);
    match v.get("bill") {
        Some(b) => {
            let bo = projected_bill_exec(b);
            push_object_if(&mut out, "bill", bo);
        },
        None => {},
    }
    let ghost s3 = jvo(out@);
    let tags = match v.get("tags") {
        Some(t) => t.copy(),
        None => Json::Null,
    };
    assert(tags@ == match get(v@, "tags"@) {
        Some(t) => t,
        None => JsonV::Null,
    });
    let te = (copy_str("tags"), tags);
    let ghost gte = te;
    let ghost b3 = out@;
    out.push(te);
    proof {
        assert(out@.drop_last() == b3);
        assert(out@.last() == gte);
        assert(jvo(out@) == jvo(b3).push((gte.0@, jv(gte.1))));
    }
    let ghost s4 = jvo(out@);
    copy_member(&mut out, v, "sources");
    copy_member(&mut out, v, "timestamp");
    proof {
        assert(jvo(out@) =~= s4 + entry_if("sources"@, get(v@, "sources"@)) + entry_if(
            "timestamp"@,
            get(v@, "timestamp"@),
        ));
        assert(s4 =~= s3 + seq![
            ("tags"@, match get(v@, "tags"@) {
                Some(t) => t,
                None => JsonV::Null,
            }),
        ]);
        assert(jvo(out@) =~= match project_default(v@) {
            JsonV::Object(m) => m,
            _ => Seq::empty(),
        });
    }
    Json::Object(out)
}

} // verus!
