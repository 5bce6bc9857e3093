//! Text selection over OCD-files JSON: the full human-readable text of a
//! bill, and its `subject:` list.
use vstd::prelude::*;
use crate::json::{
    Json, JsonV, array_opt, as_array, as_str, entries_get, get, jv, jvo, jvs, lemma_jvo_index,
    lemma_jvs_index, lookup, or_opt, str_opt,
};
use crate::text::{
    all_ws, copy_str, is_blank, join, join_strs, keep_nonblank, nonblank, trim, trim_str, views,
    lemma_trim_empty_iff_all_ws,
};

verus! {

// ------------------------------------------------------------------
// What is collected
// ------------------------------------------------------------------

/// Every string found anywhere in a value, in document order.
pub open spec fn strings_of(j: JsonV) -> Seq<Seq<char>>
    decreases j,
{
    match j {
        JsonV::Str(s) => seq![s],
        JsonV::Array(a) => strings_of_seq(a),
        JsonV::Object(m) => strings_of_entries(m),
        _ => Seq::empty(),
    }
}

pub open spec fn strings_of_seq(a: Seq<JsonV>) -> Seq<Seq<char>>
    decreases a,
{
    if a.len() == 0 {
        Seq::empty()
    } else {
        strings_of_seq(a.drop_last()) + strings_of(a.last())
    }
}

pub open spec fn strings_of_entries(m: Seq<(Seq<char>, JsonV)>) -> Seq<Seq<char>>
    decreases m,
{
    if m.len() == 0 {
        Seq::empty()
    } else {
        strings_of_entries(m.drop_last()) + strings_of(m.last().1)
    }
}

/// A one-item list for `Some`, an empty one for `None`.
pub open spec fn opt_seq(o: Option<Seq<char>>) -> Seq<Seq<char>> {
    match o {
        Some(s) => seq![s],
        None => Seq::empty(),
    }
}

/// `strings_of` of a member that may be absent.
pub open spec fn strings_opt(o: Option<JsonV>) -> Seq<Seq<char>> {
    match o {
        Some(v) => strings_of(v),
        None => Seq::empty(),
    }
}

/// For each item of `a`, its string member `k`, where it has one.
pub open spec fn member_strings(a: Seq<JsonV>, k: Seq<char>) -> Seq<Seq<char>>
    decreases a.len(),
{
    if a.len() == 0 {
        Seq::empty()
    } else {
        member_strings(a.drop_last(), k) + opt_seq(str_opt(get(a.last(), k)))
    }
}

/// `member_strings` of an array member that may be absent.
pub open spec fn member_strings_opt(o: Option<Seq<JsonV>>, k: Seq<char>) -> Seq<Seq<char>> {
    match o {
        Some(a) => member_strings(a, k),
        None => Seq::empty(),
    }
}

/// A bill's single-string fields: title, identifier, session, organization.
pub open spec fn bill_scalar_fields(b: JsonV) -> Seq<Seq<char>> {
    opt_seq(str_opt(get(b, "title"@))) + opt_seq(str_opt(get(b, "identifier"@))) + opt_seq(
        str_opt(get(b, "legislative_session"@)),
    ) + opt_seq(str_opt(get(b, "from_organization"@)))
}

/// Every string under a bill's free-text members: abstracts, subject, other
/// titles and identifiers.
pub open spec fn bill_list_fields(b: JsonV) -> Seq<Seq<char>> {
    strings_opt(get(b, "abstracts"@)) + strings_opt(get(b, "subject"@)) + strings_opt(
        get(b, "other_titles"@),
    ) + strings_opt(get(b, "other_identifiers"@))
}

/// Action descriptions, sponsor names, version notes and document notes.
pub open spec fn bill_item_fields(b: JsonV) -> Seq<Seq<char>> {
    member_strings_opt(array_opt(get(b, "actions"@)), "description"@) + member_strings_opt(
        array_opt(get(b, "sponsorships"@)),
        "name"@,
    ) + member_strings_opt(array_opt(get(b, "versions"@)), "note"@) + member_strings_opt(
        array_opt(get(b, "documents"@)),
        "note"@,
    )
}

/// The text-bearing fields of a bill `metadata.json` object, in the order
/// they are read; any other value gives all of its strings.
pub open spec fn bill_fields(b: JsonV) -> Seq<Seq<char>> {
    match b {
        JsonV::Object(_) => bill_scalar_fields(b) + bill_list_fields(b) + bill_item_fields(b),
        _ => strings_of(b),
    }
}

/// The text-bearing fields of a log object: the action description (or
/// the action itself when it is a string), then the bill id.
pub open spec fn log_fields(l: JsonV) -> Seq<Seq<char>> {
    let action = match get(l, "action"@) {
        Some(a) => match str_opt(get(a, "description"@)) {
            Some(d) => seq![d],
            None => opt_seq(as_str(a)),
        },
        None => Seq::empty(),
    };
    action + opt_seq(str_opt(or_opt(get(l, "bill_id"@), get(l, "bill_identifier"@))))
}

/// Every text-bearing string of an OCD-files value: the joined `bill`, the
/// `log`, or the value itself read as a bill; arrays item by item.
pub open spec fn bill_text(v: JsonV) -> Seq<Seq<char>>
    decreases v,
{
    match v {
        JsonV::Str(s) => seq![s],
        JsonV::Object(m) => {
            let b = entries_get(m, "bill"@);
            let l = entries_get(m, "log"@);
            (match b {
                Some(x) => bill_fields(x),
                None => Seq::empty(),
            }) + (match l {
                Some(x) => log_fields(x),
                None => Seq::empty(),
            }) + (if b is None && l is None {
                bill_fields(v)
            } else {
                Seq::empty()
            })
        },
        JsonV::Array(a) => bill_text_seq(a),
        _ => Seq::empty(),
    }
}

pub open spec fn bill_text_seq(a: Seq<JsonV>) -> Seq<Seq<char>>
    decreases a,
{
    if a.len() == 0 {
        Seq::empty()
    } else {
        bill_text_seq(a.drop_last()) + bill_text(a.last())
    }
}

/// The full text of an entry: its non-blank text-bearing strings joined
/// with single spaces.
pub open spec fn select_default_text(v: JsonV) -> Seq<char> {
    join(nonblank(bill_text(v)), " "@)
}

// ------------------------------------------------------------------
// Collecting
// ------------------------------------------------------------------

proof fn lemma_jvs_step(a: Seq<Json>, i: int)
    requires
        0 <= i < a.len(),
    ensures
        jvs(a.take(i + 1)) == jvs(a.take(i)).push(jv(a[i])),
{
    assert(a.take(i + 1).drop_last() =~= a.take(i));
}

proof fn lemma_jvo_step(m: Seq<(String, Json)>, i: int)
    requires
        0 <= i < m.len(),
    ensures
        jvo(m.take(i + 1)) == jvo(m.take(i)).push((m[i].0@, jv(m[i].1))),
{
    assert(m.take(i + 1).drop_last() =~= m.take(i));
}

/// Appends `s` to `texts`.
fn push_text(texts: &mut Vec<String>, s: &str)
    ensures
        views(final(texts)@) == views(old(texts)@).push(s@),
{
    let ghost before = texts@;
    texts.push(copy_str(s));
    proof {
        assert(views(texts@) =~= views(before).push(s@));
    }
}

/// Appends every string found anywhere in `value`.
fn collect_strings(value: &Json, texts: &mut Vec<String>)
    ensures
        views(final(texts)@) == views(old(texts)@) + strings_of(value@),
    decreases value,
{
    match value {
        Json::Str(s) => {
            push_text(texts, s.as_str());
        },
        Json::Array(a) => {
            let ghost start = views(texts@);
            let mut i: usize = 0;
            proof {
                assert(a@.take(0) =~= Seq::<Json>::empty());
                assert(views(texts@) =~= start + strings_of_seq(jvs(a@.take(0))));
            }
            while i < a.len()
                invariant
                    i <= a.len(),
                    *value == Json::Array(*a),
                    views(texts@) == start + strings_of_seq(jvs(a@.take(i as int))),
                decreases a.len() - i,
            {
                proof {
                    assert(decreases_to!(*value => value->Array_0));
                    assert(decreases_to!(*a => a[i as int]));
                    lemma_jvs_step(a@, i as int);
                    assert(jvs(a@.take(i + 1)).drop_last() =~= jvs(a@.take(i as int)));
                }
                collect_strings(&a[i], texts);
                i = i + 1;
            }
            proof {
                assert(a@.take(a@.len() as int) =~= a@);
            }
        },
        Json::Object(m) => {
            let ghost start = views(texts@);
            let mut i: usize = 0;
            proof {
                assert(m@.take(0) =~= Seq::<(String, Json)>::empty());
                assert(views(texts@) =~= start + strings_of_entries(jvo(m@.take(0))));
            }
            while i < m.len()
                invariant
                    i <= m.len(),
                    *value == Json::Object(*m),
                    views(texts@) == start + strings_of_entries(jvo(m@.take(i as int))),
                decreases m.len() - i,
            {
                proof {
                    assert(decreases_to!(*value => value->Object_0));
                    assert(decreases_to!(*m => m[i as int]));
                    assert(decreases_to!(m[i as int] => m[i as int].1));
                    lemma_jvo_step(m@, i as int);
                    assert(jvo(m@.take(i + 1)).drop_last() =~= jvo(m@.take(i as int)));
                }
                collect_strings(&m[i].1, texts);
                i = i + 1;
            }
            proof {
                assert(m@.take(m@.len() as int) =~= m@);
            }
        },
        _ => {},
    }
}

/// Appends `value`'s string member `key`, where it has one.
fn push_member_str(value: &Json, key: &str, texts: &mut Vec<String>)
    ensures
        views(final(texts)@) == views(old(texts)@) + opt_seq(str_opt(get(value@, key@))),
{
    match value.get(key) {
        Some(x) => match x.as_str() {
            Some(t) => {
                push_text(texts, t);
            },
            None => {
                proof {
                    assert(views(texts@) =~= views(texts@) + Seq::<Seq<char>>::empty());
                }
            },
        },
        None => {
            proof {
                assert(views(texts@) =~= views(texts@) + Seq::<Seq<char>>::empty());
            }
        },
    }
}

/// Appends every string of `value`'s member `key`, where it has one.
fn collect_member_strings(value: &Json, key: &str, texts: &mut Vec<String>)
    ensures
        views(final(texts)@) == views(old(texts)@) + strings_opt(get(value@, key@)),
{
    match value.get(key) {
        Some(x) => collect_strings(x, texts),
        None => {
            proof {
                assert(views(texts@) =~= views(texts@) + Seq::<Seq<char>>::empty());
            }
        },
    }
}

/// For each item of `value`'s array member `key`, appends the item's string
/// member `field`, where it has one.
fn collect_array_member(value: &Json, key: &str, field: &str, texts: &mut Vec<String>)
    ensures
        views(final(texts)@) == views(old(texts)@) + member_strings_opt(
            array_opt(get(value@, key@)),
            field@,
        ),
{
    let arr = match value.get(key) {
        Some(x) => match x.as_array() {
            Some(a) => a,
            None => {
                proof {
                    assert(views(texts@) =~= views(texts@) + Seq::<Seq<char>>::empty());
                }
                return;
            },
        },
        None => {
            proof {
                assert(views(texts@) =~= views(texts@) + Seq::<Seq<char>>::empty());
            }
            return;
        },
    };
    let ghost start = views(texts@);
    let mut i: usize = 0;
    proof {
        assert(arr@.take(0) =~= Seq::<Json>::empty());
        assert(views(texts@) =~= start + member_strings(jvs(arr@.take(0)), field@));
    }
    while i < arr.len()
        invariant
            i <= arr.len(),
            views(texts@) == start + member_strings(jvs(arr@.take(i as int)), field@),
        decreases arr.len() - i,
    {
        proof {
            lemma_jvs_step(arr@, i as int);
            assert(jvs(arr@.take(i + 1)).drop_last() =~= jvs(arr@.take(i as int)));
        }
        push_member_str(&arr[i], field, texts);
        i = i + 1;
    }
    proof {
        assert(arr@.take(arr@.len() as int) =~= arr@);
    }
}

fn collect_scalar_fields(bill: &Json, texts: &mut Vec<String>)
    ensures
        views(final(texts)@) == views(old(texts)@) + bill_scalar_fields(bill@),
{
    let ghost s0 = views(texts@);
    push_member_str(bill, "title", texts);
    let ghost s1 = views(texts@);
    push_member_str(bill, "identifier", texts);
    let ghost s2 = views(texts@);
    push_member_str(bill, "legislative_session", texts);
    let ghost s3 = views(texts@);
    push_member_str(bill, "from_organization", texts);
    proof {
        assert(s2 =~= s0 + (opt_seq(str_opt(get(bill@, "title"@))) + opt_seq(
            str_opt(get(bill@, "identifier"@)),
        )));
        assert(views(texts@) =~= s0 + bill_scalar_fields(bill@));
    }
}

fn collect_list_fields(bill: &Json, texts: &mut Vec<String>)
    ensures
        views(final(texts)@) == views(old(texts)@) + bill_list_fields(bill@),
{
    let ghost s0 = views(texts@);
    collect_member_strings(bill, "abstracts", texts);
    collect_member_strings(bill, "subject", texts);
    let ghost s2 = views(texts@);
    collect_member_strings(bill, "other_titles", texts);
    collect_member_strings(bill, "other_identifiers", texts);
    proof {
        assert(s2 =~= s0 + (strings_opt(get(bill@, "abstracts"@)) + strings_opt(
            get(bill@, "subject"@),
        )));
        assert(views(texts@) =~= s0 + bill_list_fields(bill@));
    }
}

fn collect_item_fields(bill: &Json, texts: &mut Vec<String>)
    ensures
        views(final(texts)@) == views(old(texts)@) + bill_item_fields(bill@),
{
    let ghost s0 = views(texts@);
    collect_array_member(bill, "actions", "description", texts);
    collect_array_member(bill, "sponsorships", "name", texts);
    let ghost s2 = views(texts@);
    collect_array_member(bill, "versions", "note", texts);
    collect_array_member(bill, "documents", "note", texts);
    proof {
        assert(s2 =~= s0 + (member_strings_opt(array_opt(get(bill@, "actions"@)), "description"@)
            + member_strings_opt(array_opt(get(bill@, "sponsorships"@)), "name"@)));
        assert(views(texts@) =~= s0 + bill_item_fields(bill@));
    }
}

/// Appends every text-bearing field of a bill `metadata.json` object.
fn collect_bill_fields(bill: &Json, texts: &mut Vec<String>)
    ensures
        views(final(texts)@) == views(old(texts)@) + bill_fields(bill@),
{
    match bill {
        Json::Object(_) => {},
        _ => {
            collect_strings(bill, texts);
            return;
        },
    }
    let ghost s0 = views(texts@);
    collect_scalar_fields(bill, texts);
    collect_list_fields(bill, texts);
    collect_item_fields(bill, texts);
    proof {
        assert(views(texts@) =~= s0 + bill_fields(bill@));
    }
}

/// Appends the text-bearing fields of a log object.
fn collect_log_fields(log: &Json, texts: &mut Vec<String>)
    ensures
        views(final(texts)@) == views(old(texts)@) + log_fields(log@),
{
    let ghost start = views(texts@);
    match log.get("action") {
        Some(action) => {
            let desc = match action.get("description") {
                Some(d) => d.as_str(),
                None => None,
            };
            match desc {
                Some(d) => push_text(texts, d),
                None => match action.as_str() {
                    Some(d) => push_text(texts, d),
                    None => {},
                },
            }
        },
        None => {},
    }
    let ghost mid = views(texts@);
    let id = match log.get("bill_id") {
        Some(x) => Some(x),
        None => log.get("bill_identifier"),
    };
    match id {
        Some(x) => match x.as_str() {
            Some(t) => push_text(texts, t),
            None => {},
        },
        None => {},
    }
    proof {
        assert(views(texts@) =~= start + log_fields(log@));
    }
}

/// Appends every text-bearing string of an OCD-files value.
fn collect_bill_text(value: &Json, texts: &mut Vec<String>)
    ensures
        views(final(texts)@) == views(old(texts)@) + bill_text(value@),
    decreases value,
{
    match value {
        Json::Str(s) => {
            push_text(texts, s.as_str());
        },
        Json::Object(m) => {
            let ghost start = views(texts@);
            let b = lookup(m, "bill");
            let l = lookup(m, "log");
            match b {
                Some(x) => collect_bill_fields(x, texts),
                None => {},
            }
            match l {
                Some(x) => collect_log_fields(x, texts),
                None => {},
            }
            if b.is_none() && l.is_none() {
                collect_bill_fields(value, texts);
            }
            proof {
                assert(views(texts@) =~= start + bill_text(value@));
            }
        },
        Json::Array(a) => {
            let ghost start = views(texts@);
            let mut i: usize = 0;
            proof {
                assert(a@.take(0) =~= Seq::<Json>::empty());
                assert(views(texts@) =~= start + bill_text_seq(jvs(a@.take(0))));
            }
            while i < a.len()
                invariant
                    i <= a.len(),
                    *value == Json::Array(*a),
                    views(texts@) == start + bill_text_seq(jvs(a@.take(i as int))),
                decreases a.len() - i,
            {
                proof {
                    assert(decreases_to!(*value => value->Array_0));
                    assert(decreases_to!(*a => a[i as int]));
                    lemma_jvs_step(a@, i as int);
                    assert(jvs(a@.take(i + 1)).drop_last() =~= jvs(a@.take(i as int)));
                }
                collect_bill_text(&a[i], texts);
                i = i + 1;
            }
            proof {
                assert(a@.take(a@.len() as int) =~= a@);
            }
        },
        _ => {
            proof {
                assert(views(texts@) =~= views(texts@) + Seq::<Seq<char>>::empty());
            }
        },
    }
}

/// The full human-readable text of a bill entry: title, identifier, every
/// abstract and subject, action descriptions, sponsor names, version and
/// document notes, session and originating organization — or, for a bare
/// log entry, its action description and bill id. Blank pieces are dropped
/// and the rest joined with single spaces.
pub fn ocd_files_select_default(value: &Json) -> (r: String)
    ensures
        r@ == select_default_text(value@),
{
    let mut texts: Vec<String> = Vec::new();
    collect_bill_text(value, &mut texts);
    proof {
        assert(views(texts@) =~= bill_text(value@));
    }
    let kept = keep_nonblank(&texts);
    join_strs(&kept, " ")
}

// ------------------------------------------------------------------
// Subjects
// ------------------------------------------------------------------

/// The bill `metadata.json` object inside an entry: the joined `bill` when
/// it is an object; nothing for a bare `log` entry; otherwise the entry
/// itself, read as a bill.
pub open spec fn bill_object(v: JsonV) -> Option<Seq<(Seq<char>, JsonV)>> {
    match v {
        JsonV::Object(m) => match entries_get(m, "bill"@) {
            Some(JsonV::Object(b)) => Some(b),
            _ => if entries_get(m, "log"@) is Some {
                None
            } else {
                Some(m)
            },
        },
        _ => None,
    }
}

/// The trimmed, non-empty string items of a `subject:` array, in order.
pub open spec fn subject_list(raw: Seq<JsonV>) -> Seq<Seq<char>>
    decreases raw.len(),
{
    if raw.len() == 0 {
        Seq::empty()
    } else {
        let rest = subject_list(raw.drop_last());
        match as_str(raw.last()) {
            Some(s) => if trim(s).len() > 0 {
                rest.push(trim(s))
            } else {
                rest
            },
            None => rest,
        }
    }
}

/// The OCD `subject:` list of an entry; `None` when there is no bill
/// object, no `subject:` array, or no non-blank string in it.
pub open spec fn subjects_of(v: JsonV) -> Option<Seq<Seq<char>>> {
    match bill_object(v) {
        None => None,
        Some(b) => match array_opt(entries_get(b, "subject"@)) {
            None => None,
            Some(raw) => if subject_list(raw).len() == 0 {
                None
            } else {
                Some(subject_list(raw))
            },
        },
    }
}

/// Every item of a `subject_list` is trimmed and non-empty.
pub proof fn lemma_subject_list_items(raw: Seq<JsonV>)
    ensures
        forall|i: int|
            0 <= i < subject_list(raw).len() ==> #[trigger] subject_list(raw)[i].len() > 0
                && trim(subject_list(raw)[i]) == subject_list(raw)[i],
    decreases raw.len(),
{
    if raw.len() > 0 {
        let rest = subject_list(raw.drop_last());
        lemma_subject_list_items(raw.drop_last());
        match as_str(raw.last()) {
            Some(s) => {
                crate::text::lemma_trim_idempotent(s);
                if trim(s).len() > 0 {
                    assert forall|i: int| 0 <= i < rest.push(trim(s)).len() implies #[trigger] rest.push(
                        trim(s),
                    )[i].len() > 0 && trim(rest.push(trim(s))[i]) == rest.push(trim(s))[i] by {
                        if i < rest.len() {
                            assert(rest.push(trim(s))[i] == rest[i]);
                        }
                    }
                }
            },
            None => {},
        }
    }
}

fn bill_object_exec(value: &Json) -> (r: Option<&Vec<(String, Json)>>)
    ensures
        match r {
            Some(m) => bill_object(value@) == Some(jvo(m@)),
            None => bill_object(value@) is None,
        },
{
    match value {
        Json::Object(m) => {
            match lookup(m, "bill") {
                Some(Json::Object(b)) => {
                    return Some(b);
                },
                _ => {},
            }
            if lookup(m, "log").is_some() {
                None
            } else {
                Some(m)
            }
        },
        _ => None,
    }
}

/// The OCD `subject:` array of a bill entry, trimmed, with blank items
/// dropped. `None` when the entry has no bill metadata, the bill has no
/// `subject:` array, or nothing non-blank is in it: an empty list is never
/// returned.
pub fn ocd_files_extract_subjects(value: &Json) -> (r: Option<Vec<String>>)
    ensures
        match r {
            Some(v) => subjects_of(value@) == Some(views(v@)),
            None => subjects_of(value@) is None,
        },
        match r {
            Some(v) => v@.len() > 0 && forall|i: int|
                0 <= i < v@.len() ==> #[trigger] v@[i]@.len() > 0 && trim(v@[i]@) == v@[i]@,
            None => true,
        },
{
    let bill = match bill_object_exec(value) {
        Some(b) => b,
        None => return None,
    };
    let raw = match lookup(bill, "subject") {
        Some(x) => match x.as_array() {
            Some(a) => a,
            None => return None,
        },
        None => return None,
    };
    let mut out: Vec<String> = Vec::new();
    let mut i: usize = 0;
    while i < raw.len()
        invariant
            i <= raw.len(),
            views(out@) == subject_list(jvs(raw@.take(i as int))),
        decreases raw.len() - i,
    {
        proof {
            lemma_jvs_step(raw@, i as int);
            assert(jvs(raw@.take(i + 1)).drop_last() =~= jvs(raw@.take(i as int)));
        }
        match raw[i].as_str() {
            Some(t) => {
                let tt = trim_str(t);
                if tt.unicode_len() > 0 {
                    let ghost before = out@;
                    out.push(tt);
                    proof {
                        assert(views(out@) =~= views(before).push(trim(t@)));
                    }
                }
            },
            None => {},
        }
        i = i + 1;
    }
    proof {
        assert(raw@.take(raw@.len() as int) =~= raw@);
        lemma_subject_list_items(jvs(raw@));
        assert forall|i: int| 0 <= i < out@.len() implies #[trigger] out@[i]@.len() > 0 && trim(
            out@[i]@,
        ) == out@[i]@ by {
            assert(views(out@)[i] == out@[i]@);
        }
    }
    if out.len() == 0 {
        None
    } else {
        Some(out)
    }
}

// ------------------------------------------------------------------
// What the text holds
// ------------------------------------------------------------------

proof fn lemma_member_strings_has(a: Seq<JsonV>, key: Seq<char>, i: int, n: Seq<char>)
    requires
        0 <= i < a.len(),
        get(a[i], key) == Some(JsonV::Str(n)),
    ensures
        member_strings(a, key).contains(n),
    decreases a.len(),
{
    let init = a.drop_last();
    if i == a.len() - 1 {
        let r = member_strings(init, key);
        assert((r + seq![n])[r.len() as int] == n);
    } else {
        lemma_member_strings_has(init, key, i, n);
        assert(init[i] == a[i]);
        let r = member_strings(init, key);
        let k = choose|k: int| 0 <= k < r.len() && r[k] == n;
        assert((r + opt_seq(str_opt(get(a.last(), key))))[k] == n);
    }
}

proof fn lemma_seq_contains_left(x: Seq<Seq<char>>, y: Seq<Seq<char>>, n: Seq<char>)
    requires
        x.contains(n),
    ensures
        (x + y).contains(n),
{
    let k = choose|k: int| 0 <= k < x.len() && x[k] == n;
    assert((x + y)[k] == n);
}

proof fn lemma_seq_contains_right(x: Seq<Seq<char>>, y: Seq<Seq<char>>, n: Seq<char>)
    requires
        y.contains(n),
    ensures
        (x + y).contains(n),
{
    let k = choose|k: int| 0 <= k < y.len() && y[k] == n;
    assert((x + y)[x.len() + k] == n);
}

/// The text of an entry that joins a bill holds the note of every version
/// of the bill: for a bill object whose `versions` array has an item with a
/// `note` string that is not all whitespace, that note occurs in the text.
pub proof fn law_version_notes_are_in_the_text(
    v: JsonV,
    b: JsonV,
    vs: Seq<JsonV>,
    i: int,
    note: Seq<char>,
)
    requires
        get(v, "bill"@) == Some(b),
        b is Object,
        get(b, "versions"@) == Some(JsonV::Array(vs)),
        0 <= i < vs.len(),
        get(vs[i], "note"@) == Some(JsonV::Str(note)),
        !all_ws(note),
    ensures
        crate::text::contains(select_default_text(v), note),
{
    lemma_member_strings_has(vs, "note"@, i, note);
    let versions = member_strings_opt(array_opt(get(b, "versions"@)), "note"@);
    let x = member_strings_opt(array_opt(get(b, "actions"@)), "description"@) + member_strings_opt(
        array_opt(get(b, "sponsorships"@)),
        "name"@,
    );
    let y = member_strings_opt(array_opt(get(b, "documents"@)), "note"@);
    lemma_seq_contains_right(x, versions, note);
    lemma_seq_contains_left(x + versions, y, note);
    assert(bill_item_fields(b) == x + versions + y);
    lemma_seq_contains_right(bill_scalar_fields(b) + bill_list_fields(b), bill_item_fields(b), note);
    assert(bill_fields(b) == bill_scalar_fields(b) + bill_list_fields(b) + bill_item_fields(b));
    let m = v->Object_0;
    assert(entries_get(m, "bill"@) == Some(b));
    let lpart = match entries_get(m, "log"@) {
        Some(l) => log_fields(l),
        None => Seq::empty(),
    };
    lemma_seq_contains_left(bill_fields(b), lpart, note);
    lemma_seq_contains_left(bill_fields(b) + lpart, Seq::empty(), note);
    assert(bill_text(v) == bill_fields(b) + lpart + Seq::<Seq<char>>::empty());
    crate::text::lemma_nonblank_join_contains(bill_text(v), " "@, note);
}

} // verus!
