//! The `source` stage: which dataset directories to walk, which walked files
//! are session logs, how a log is joined with its bill and tags into a
//! record, and how a record is projected and pruned before it is written.
use vstd::prelude::*;
use crate::doc::{
    deep_prune_json, doc_of, extract, extract_json_field, ocd_entry_to_doc, opt_jv_owned, prune,
    project_default, select_default_fields,
};
use crate::json::{
    Json, JsonV, and_get, get, insert_entry, json_text_value, jv, jvo, lemma_jvo_index, obj_insert,
    or_opt, parse_json_text, str_opt,
};
use crate::num::{parse_usize, parse_usize_spec};
use crate::route::{parse_join_string, timestamp_of, extract_timestamp_from_path, opt_view};
use crate::text::{
    after_last, after_last_str, before_first, before_first_str, concat2, contains, contains_str,
    copy_str, ends_with_str, find, find_exec, chars_of, is_prefix, is_suffix, join, join_strs,
    lemma_find_props, lowercase, split, split_trimmed, starts_with_str, str_eq, strip_prefix_str,
    to_lowercase_str, trim, trim_str, trimmed_nonempty, views, replace_all, replace_str,
};

verus! {

// ------------------------------------------------------------------
// `--join`
// ------------------------------------------------------------------

/// A join item `dataset[.field...]` split at its dots.
pub open spec fn join_spec_of(item: Seq<char>) -> (Seq<char>, Seq<Seq<char>>) {
    (split(item, "."@)[0], split(item, "."@).drop_first())
}

/// The `dataset[.field...]` specs among the join items, in order; `tags`
/// is not one of them.
pub open spec fn join_specs(items: Seq<Seq<char>>) -> Seq<(Seq<char>, Seq<Seq<char>>)>
    decreases items.len(),
{
    if items.len() == 0 {
        Seq::empty()
    } else if items.last() == "tags"@ {
        join_specs(items.drop_last())
    } else {
        join_specs(items.drop_last()).push(join_spec_of(items.last()))
    }
}

/// The views of parsed join specs.
pub open spec fn spec_views(v: Seq<(String, Vec<String>)>) -> Seq<(Seq<char>, Seq<Seq<char>>)> {
    v.map_values(|x: (String, Vec<String>)| (x.0@, views(x.1@)))
}

/// Parse `--join`: comma-separated items, trimmed, blanks skipped. `tags`
/// turns the tags join on; every other item is `dataset[.field...]`.
pub fn parse_source_joins(join: &str) -> (r: (Vec<(String, Vec<String>)>, bool))
    ensures
        spec_views(r.0@) == join_specs(trimmed_nonempty(split(join@, ","@))),
        r.1 == trimmed_nonempty(split(join@, ","@)).contains("tags"@),
{
    proof {
        reveal_strlit(",");
    }
    let items = split_trimmed(join, ",");
    let ghost iv = views(items@);
    let mut specs: Vec<(String, Vec<String>)> = Vec::new();
    let mut tags = false;
    let mut i: usize = 0;
    while i < items.len()
        invariant
            i <= items.len(),
            iv == views(items@),
            spec_views(specs@) == join_specs(iv.take(i as int)),
            tags == iv.take(i as int).contains("tags"@),
        decreases items.len() - i,
    {
        let ghost prev = iv.take(i as int);
        let ghost next = iv.take(i + 1);
        proof {
            assert(next.drop_last() =~= prev);
            assert(next.last() == items@[i as int]@);
            assert(next =~= prev.push(items@[i as int]@));
        }
        if str_eq(items[i].as_str(), "tags") {
            tags = true;
            proof {
                assert(next[i as int] == "tags"@);
            }
        } else {
            proof {
                if next.contains("tags"@) {
                    let j = choose|j: int| 0 <= j < next.len() && next[j] == "tags"@;
                    assert(j < i);
                    assert(prev[j] == "tags"@);
                }
                if prev.contains("tags"@) {
                    let j = choose|j: int| 0 <= j < prev.len() && prev[j] == "tags"@;
                    assert(next[j] == "tags"@);
                }
            }
            let parsed = parse_join_string(items[i].as_str());
            match parsed {
                Some(spec) => {
                    let ghost before = specs@;
                    let ghost g = spec;
                    specs.push(spec);
                    proof {
                        assert(specs@ == before.push(g));
                        assert(spec_views(specs@) =~= spec_views(before).push((g.0@, views(g.1@))));
                    }
                },
                None => {},
            }
        }
        proof {
            if str_eq_spec_tags(items@[i as int]@) {
                let j = i as int;
                assert(next[j] == "tags"@);
            }
            if prev.contains("tags"@) {
                let j = choose|j: int| 0 <= j < prev.len() && prev[j] == "tags"@;
                assert(next[j] == "tags"@);
            }
        }
        i = i + 1;
    }
    proof {
        assert(iv.take(iv.len() as int) =~= iv);
    }
    (specs, tags)
}

spec fn str_eq_spec_tags(s: Seq<char>) -> bool {
    s == "tags"@
}

// ------------------------------------------------------------------
// Which directories to walk
// ------------------------------------------------------------------

/// The short, slash-free dataset name an identifier denotes: the part after
/// the last `/`, up to the first `@`.
pub open spec fn short_dataset(id: Seq<char>) -> Seq<char> {
    before_first(after_last(id, "/"@), "@"@)
}

/// `wy` → `wy-legislation`: the directory a dataset is linked under.
pub fn repo_dir_name(short_name: &str, suffix: &str) -> (r: String)
    ensures
        r@ == short_name@ + suffix@,
{
    concat2(short_name, suffix)
}

/// The short dataset name of an identifier (see `short_dataset`).
pub fn short_dataset_name(id: &str) -> (r: String)
    ensures
        r@ == short_dataset(id@),
{
    let last = after_last_str(id, "/");
    before_first_str(last.as_str(), "@")
}

/// The dataset list `source` starts from: a single comma-bearing argument
/// is split at commas (trimmed, blanks dropped); an empty list means `all`.
pub open spec fn repo_list_of(repos: Seq<Seq<char>>) -> Seq<Seq<char>> {
    let l = if repos.len() == 1 && contains(repos[0], ","@) {
        trimmed_nonempty(split(repos[0], ","@))
    } else {
        repos
    };
    if l.len() == 0 {
        seq!["all"@]
    } else {
        l
    }
}

/// Each of `names` with `suffix` appended.
pub open spec fn with_suffix(names: Seq<Seq<char>>, suffix: Seq<char>) -> Seq<Seq<char>> {
    names.map_values(|n: Seq<char>| n + suffix)
}

/// The repo directories for a dataset list: each item trimmed and
/// lower-cased, blanks skipped; `all` expands to every locally present
/// dataset (when the repos directory exists), any other identifier to its
/// short name's directory.
pub open spec fn expand_repo_dirs(
    list: Seq<Seq<char>>,
    local: Seq<Seq<char>>,
    dir_exists: bool,
    suffix: Seq<char>,
) -> Seq<Seq<char>>
    decreases list.len(),
{
    if list.len() == 0 {
        Seq::empty()
    } else {
        let r = expand_repo_dirs(list.drop_last(), local, dir_exists, suffix);
        let l = lowercase(trim(list.last()));
        if l.len() == 0 {
            r
        } else if l == "all"@ {
            if dir_exists {
                r + with_suffix(local, suffix)
            } else {
                r
            }
        } else {
            r.push(short_dataset(l) + suffix)
        }
    }
}

/// Appends `n + suffix` for each name.
fn push_with_suffix(out: &mut Vec<String>, names: &Vec<String>, suffix: &str)
    ensures
        views(final(out)@) == views(old(out)@) + with_suffix(views(names@), suffix@),
{
    let ghost start = views(out@);
    let mut i: usize = 0;
    while i < names.len()
        invariant
            i <= names.len(),
            views(out@) == start + with_suffix(views(names@).take(i as int), suffix@),
        decreases names.len() - i,
    {
        let ghost before = out@;
        out.push(concat2(names[i].as_str(), suffix));
        proof {
            assert(views(out@) =~= views(before).push(names@[i as int]@ + suffix@));
            assert(with_suffix(views(names@).take(i + 1), suffix@) =~= with_suffix(
                views(names@).take(i as int),
                suffix@,
            ).push(names@[i as int]@ + suffix@));
        }
        i = i + 1;
    }
    proof {
        assert(views(names@).take(names@.len() as int) =~= views(names@));
    }
}

/// The repo directory names `source` walks, in order (see
/// `repo_list_of` and `expand_repo_dirs`). `local` is the sorted list of
/// datasets present under the repos directory.
pub fn source_repo_dirs(repos: &Vec<String>, local: &Vec<String>, dir_exists: bool, suffix: &str) -> (r:
    Vec<String>)
    ensures
        views(r@) == expand_repo_dirs(repo_list_of(views(repos@)), views(local@), dir_exists, suffix@),
{
    proof {
        reveal_strlit(",");
    }
    let mut list: Vec<String> = if repos.len() == 1 && contains_str(repos[0].as_str(), ",") {
        split_trimmed(repos[0].as_str(), ",")
    } else {
        let mut c: Vec<String> = Vec::new();
        let mut i: usize = 0;
        while i < repos.len()
            invariant
                i <= repos.len(),
                views(c@) == views(repos@).take(i as int),
            decreases repos.len() - i,
        {
            let ghost before = c@;
            c.push(copy_str(repos[i].as_str()));
            proof {
                assert(views(c@) =~= views(before).push(repos@[i as int]@));
                assert(views(repos@).take(i + 1) =~= views(repos@).take(i as int).push(
                    repos@[i as int]@,
                ));
            }
            i = i + 1;
        }
        proof {
            assert(views(repos@).take(repos@.len() as int) =~= views(repos@));
        }
        c
    };
    if list.len() == 0 {
        list.push(copy_str("all"));
        proof {
            assert(views(list@) =~= seq!["all"@]);
        }
    }
    let ghost lv = views(list@);
    proof {
        assert(lv == repo_list_of(views(repos@)));
    }
    expand_dirs(&list, local, dir_exists, suffix)
}

fn expand_dirs(list: &Vec<String>, local: &Vec<String>, dir_exists: bool, suffix: &str) -> (r: Vec<
    String,
>)
    ensures
        views(r@) == expand_repo_dirs(views(list@), views(local@), dir_exists, suffix@),
{
    let mut out: Vec<String> = Vec::new();
    let mut i: usize = 0;
    proof {
        assert(views(list@).take(0) =~= Seq::<Seq<char>>::empty());
    }
    while i < list.len()
        invariant
            i <= list.len(),
            views(out@) == expand_repo_dirs(
                views(list@).take(i as int),
                views(local@),
                dir_exists,
                suffix@,
            ),
        decreases list.len() - i,
    {
        let ghost prev = views(list@).take(i as int);
        proof {
            let next = views(list@).take(i + 1);
            assert(next.drop_last() =~= prev);
            assert(next.last() == list@[i as int]@);
        }
        let t = trim_str(list[i].as_str());
        let l = to_lowercase_str(t.as_str());
        if l.unicode_len() == 0 {
        } else if str_eq(l.as_str(), "all") {
            if dir_exists {
                push_with_suffix(&mut out, local, suffix);
            }
        } else {
            let short = short_dataset_name(l.as_str());
            let ghost before = out@;
            out.push(concat2(short.as_str(), suffix));
            proof {
                assert(views(out@) =~= views(before).push(short@ + suffix@));
            }
        }
        i = i + 1;
    }
    proof {
        assert(views(list@).take(list@.len() as int) =~= views(list@));
    }
    out
}

// ------------------------------------------------------------------
// Which files are session logs
// ------------------------------------------------------------------

/// A walked path relative to its repo directory: the repo prefix removed,
/// then one leading `/`; `None` when the path is not under the prefix.
pub open spec fn relative_to(path: Seq<char>, prefix: Seq<char>) -> Option<Seq<char>> {
    if is_prefix(prefix, path) {
        let rest = path.skip(prefix.len() as int);
        if rest.len() > 0 && rest[0] == '/' {
            Some(rest.drop_first())
        } else {
            Some(rest)
        }
    } else {
        None
    }
}

pub fn relative_log_path(path: &str, repo_prefix: &str) -> (r: Option<String>)
    ensures
        opt_view(r) == relative_to(path@, repo_prefix@),
{
    match strip_prefix_str(path, repo_prefix) {
        Some(rest) => {
            proof {
                reveal_strlit("/");
            }
            match strip_prefix_str(rest.as_str(), "/") {
                Some(r2) => {
                    proof {
                        assert(rest@.drop_first() =~= rest@.skip(1));
                        assert(rest@.take(1)[0] == rest@[0]);
                    }
                    Some(r2)
                },
                None => {
                    proof {
                        if rest@.len() > 0 && rest@[0] == '/' {
                            assert(rest@.take(1) =~= "/"@);
                        }
                    }
                    Some(rest)
                },
            }
        },
        None => None,
    }
}

/// A position for the order check: the index of the first occurrence, or a
/// value past every index when there is none.
pub open spec fn pos_or(s: Seq<char>, p: Seq<char>, absent: int) -> int {
    match find(s, p) {
        Some(i) => i,
        None => absent,
    }
}

/// A repo-relative path of the form
/// `country:<c>/state:<s>/sessions/<id>/.../logs/<file>.json`, with the
/// four markers in that order.
pub open spec fn is_session_log_path(rel: Seq<char>) -> bool {
    &&& is_prefix("country:"@, rel)
    &&& contains(rel, "/state:"@)
    &&& contains(rel, "/sessions/"@)
    &&& contains(rel, "/logs/"@)
    &&& is_suffix(".json"@, rel)
    &&& pos_or(rel, "country:"@, 0) < pos_or(rel, "/state:"@, usize::MAX as int)
    &&& pos_or(rel, "/state:"@, usize::MAX as int) < pos_or(rel, "/sessions/"@, usize::MAX as int)
    &&& pos_or(rel, "/sessions/"@, usize::MAX as int) < pos_or(rel, "/logs/"@, usize::MAX as int)
}

fn pos_or_exec(s: &str, p: &str, absent: usize) -> (r: usize)
    ensures
        r as int == pos_or(s@, p@, absent as int),
{
    let sv = chars_of(s);
    let pv = chars_of(p);
    match find_exec(&sv, &pv) {
        Some(i) => i,
        None => absent,
    }
}

/// True for a session log path (see `is_session_log_path`).
pub fn session_log_path_matches(rel: &str) -> (b: bool)
    ensures
        b == is_session_log_path(rel@),
{
    if !(starts_with_str(rel, "country:") && contains_str(rel, "/state:") && contains_str(
        rel,
        "/sessions/",
    ) && contains_str(rel, "/logs/") && ends_with_str(rel, ".json")) {
        return false;
    }
    let country_pos = pos_or_exec(rel, "country:", 0);
    let state_pos = pos_or_exec(rel, "/state:", usize::MAX);
    let sessions_pos = pos_or_exec(rel, "/sessions/", usize::MAX);
    let logs_pos = pos_or_exec(rel, "/logs/", usize::MAX);
    country_pos < state_pos && state_pos < sessions_pos && sessions_pos < logs_pos
}

// ------------------------------------------------------------------
// `--limit`
// ------------------------------------------------------------------

/// `--limit`: `none` (any case) means no limit; otherwise a `usize`;
/// anything else is refused.
pub open spec fn source_limit_spec(limit: Seq<char>) -> Option<Option<usize>> {
    if lowercase(limit) == "none"@ {
        Some(None)
    } else {
        match parse_usize_spec(limit) {
            Some(n) => Some(Some(n)),
            None => None,
        }
    }
}

/// Parse `--limit`. `Err` carries the refused text.
pub fn parse_source_limit(limit: &str) -> (r: Result<Option<usize>, String>)
    ensures
        match r {
            Ok(l) => source_limit_spec(limit@) == Some(l),
            Err(e) => source_limit_spec(limit@) is None && e@ == limit@,
        },
{
    let low = to_lowercase_str(limit);
    if str_eq(low.as_str(), "none") {
        Ok(None)
    } else {
        match parse_usize(limit) {
            Some(n) => Ok(Some(n)),
            None => Err(copy_str(limit)),
        }
    }
}

// ------------------------------------------------------------------
// The record
// ------------------------------------------------------------------

/// True when some join spec names the `bill` dataset.
pub open spec fn has_bill_join(specs: Seq<(Seq<char>, Seq<Seq<char>>)>) -> bool {
    exists|i: int| 0 <= i < specs.len() && #[trigger] specs[i].0 == "bill"@
}

/// One join spec applied to the record's entries: `bill` inserts the whole
/// metadata, `bill.<path>` inserts the value at `<path>` under the key
/// `bill.<path>` (nothing when the path does not resolve); other datasets
/// add nothing.
pub open spec fn bill_join_step(
    out: Seq<(Seq<char>, JsonV)>,
    spec: (Seq<char>, Seq<Seq<char>>),
    meta: JsonV,
) -> Seq<(Seq<char>, JsonV)> {
    if spec.0 != "bill"@ {
        out
    } else if spec.1.len() == 0 {
        insert_entry(out, "bill"@, meta)
    } else {
        match extract(meta, spec.1) {
            Some(fv) => insert_entry(out, "bill."@ + join(spec.1, "."@), fv),
            None => out,
        }
    }
}

/// All join specs applied in order.
pub open spec fn bill_joins(
    out: Seq<(Seq<char>, JsonV)>,
    specs: Seq<(Seq<char>, Seq<Seq<char>>)>,
    meta: JsonV,
) -> Seq<(Seq<char>, JsonV)>
    decreases specs.len(),
{
    if specs.len() == 0 {
        out
    } else {
        bill_join_step(bill_joins(out, specs.drop_last(), meta), specs.last(), meta)
    }
}

/// The joined record of one log: `log`, the bill joins (when the bill's
/// metadata was read), `tags` (when any matched), `sources` (the log path,
/// plus the metadata path when a bill join used it) and `timestamp` (when
/// the log file name carries one).
pub open spec fn source_record(
    log: JsonV,
    src: Seq<char>,
    specs: Seq<(Seq<char>, Seq<Seq<char>>)>,
    bill: Option<(JsonV, Seq<char>)>,
    tags: Seq<(Seq<char>, JsonV)>,
) -> JsonV {
    let base = seq![("log"@, log)];
    let with_bill = match bill {
        Some((meta, _)) => bill_joins(base, specs, meta),
        None => base,
    };
    let with_tags = if tags.len() > 0 {
        insert_entry(with_bill, "tags"@, JsonV::Object(tags))
    } else {
        with_bill
    };
    let sources = seq![("log"@, JsonV::Str(src))] + match bill {
        Some((_, bs)) => if has_bill_join(specs) {
            seq![("bill"@, JsonV::Str(bs))]
        } else {
            Seq::empty()
        },
        None => Seq::empty(),
    };
    let with_sources = insert_entry(with_tags, "sources"@, JsonV::Object(sources));
    match timestamp_of(src) {
        Some(ts) => JsonV::Object(insert_entry(with_sources, "timestamp"@, JsonV::Str(ts))),
        None => JsonV::Object(with_sources),
    }
}

/// The bill's metadata and its source path, as views.
pub open spec fn bill_view(b: Option<(Json, String)>) -> Option<(JsonV, Seq<char>)> {
    match b {
        Some((m, s)) => Some((m@, s@)),
        None => None,
    }
}

fn apply_bill_joins(
    out: &mut Vec<(String, Json)>,
    specs: &Vec<(String, Vec<String>)>,
    meta: &Json,
) -> (used: bool)
    ensures
        jvo(final(out)@) == bill_joins(jvo(old(out)@), spec_views(specs@), meta@),
        used == has_bill_join(spec_views(specs@)),
{
    let ghost start = jvo(out@);
    let ghost sv = spec_views(specs@);
    let mut used = false;
    let mut i: usize = 0;
    proof {
        assert(sv.take(0) =~= Seq::<(Seq<char>, Seq<Seq<char>>)>::empty());
    }
    while i < specs.len()
        invariant
            i <= specs.len(),
            sv == spec_views(specs@),
            jvo(out@) == bill_joins(start, sv.take(i as int), meta@),
            used == has_bill_join(sv.take(i as int)),
        decreases specs.len() - i,
    {
        let ghost prev = sv.take(i as int);
        let ghost next = sv.take(i + 1);
        proof {
            assert(next.drop_last() =~= prev);
            assert(next.last() == sv[i as int]);
            assert(sv[i as int] == (specs@[i as int].0@, views(specs@[i as int].1@)));
        }
        let name = specs[i].0.as_str();
        let path = &specs[i].1;
        if str_eq(name, "bill") {
            if path.len() == 0 {
                obj_insert(out, copy_str("bill"), meta.copy());
            } else {
                match extract_json_field(meta, path.as_slice()) {
                    Some(fv) => {
                        let dotted = join_strs(path, ".");
                        let key = concat2("bill.", dotted.as_str());
                        obj_insert(out, key, fv);
                    },
                    None => {},
                }
            }
            used = true;
            proof {
                assert(next[i as int].0 == "bill"@);
            }
        } else {
            proof {
                if has_bill_join(next) {
                    let j = choose|j: int| 0 <= j < next.len() && #[trigger] next[j].0 == "bill"@;
                    assert(j < i);
                    assert(prev[j] == next[j]);
                }
            }
        }
        proof {
            if has_bill_join(prev) {
                let j = choose|j: int| 0 <= j < prev.len() && #[trigger] prev[j].0 == "bill"@;
                assert(next[j] == prev[j]);
            }
        }
        i = i + 1;
    }
    proof {
        assert(sv.take(sv.len() as int) =~= sv);
    }
    used
}

/// The joined record of one log file (see `source_record`). `bill` is the
/// bill's parsed `metadata.json` with its source path, when it was read;
/// `tags` are the matched tag scores keyed by tag name.
pub fn build_source_record(
    log: Json,
    source_path: &str,
    specs: &Vec<(String, Vec<String>)>,
    bill: Option<(Json, String)>,
    tags: Vec<(String, Json)>,
) -> (r: Json)
    ensures
        r@ == source_record(log@, source_path@, spec_views(specs@), bill_view(bill), jvo(tags@)),
{
    let ghost lv = log@;
    let mut out: Vec<(String, Json)> = Vec::new();
    out.push((copy_str("log"), log));
    proof {
        lemma_jvo_index(out@);
        assert(jvo(out@) =~= seq![("log"@, lv)]);
    }
    let mut sources: Vec<(String, Json)> = Vec::new();
    sources.push((copy_str("log"), Json::Str(copy_str(source_path))));
    proof {
        lemma_jvo_index(sources@);
        assert(jvo(sources@) =~= seq![("log"@, JsonV::Str(source_path@))]);
    }
    let ghost src0 = jvo(sources@);
    let ghost base = jvo(out@);
    let ghost bv = bill_view(bill);
    let ghost specv = spec_views(specs@);
    match bill {
        Some((meta, bill_src)) => {
            let used = apply_bill_joins(&mut out, specs, &meta);
            if used {
                let ghost before = sources@;
                let e = (copy_str("bill"), Json::Str(bill_src));
                let ghost ge = e;
                sources.push(e);
                proof {
                    assert(sources@.drop_last() == before);
                    assert(sources@.last() == ge);
                    assert(jvo(sources@) == jvo(before).push((ge.0@, jv(ge.1))));
                    assert(jvo(sources@) =~= src0 + seq![("bill"@, JsonV::Str((bv->0).1))]);
                }
            } else {
                proof {
                    assert(jvo(sources@) =~= src0 + Seq::<(Seq<char>, JsonV)>::empty());
                }
            }
        },
        None => {
            proof {
                assert(jvo(sources@) =~= src0 + Seq::<(Seq<char>, JsonV)>::empty());
            }
        },
    }
    let ghost wb = jvo(out@);
    let ghost srcs = jvo(sources@);
    proof {
        assert(wb == match bv {
            Some((meta, _)) => bill_joins(base, specv, meta),
            None => base,
        });
        assert(srcs == seq![("log"@, JsonV::Str(source_path@))] + match bv {
            Some((_, bs)) => if has_bill_join(specv) {
                seq![("bill"@, JsonV::Str(bs))]
            } else {
                Seq::empty()
            },
            None => Seq::empty(),
        });
    }
    let ghost tv = jvo(tags@);
    proof {
        lemma_jvo_index(tags@);
    }
    if tags.len() > 0 {
        obj_insert(&mut out, copy_str("tags"), Json::Object(tags));
    }
    let ghost wt = jvo(out@);
    proof {
        assert(wt == if tv.len() > 0 {
            insert_entry(wb, "tags"@, JsonV::Object(tv))
        } else {
            wb
        });
    }
    obj_insert(&mut out, copy_str("sources"), Json::Object(sources));
    let ghost ws = jvo(out@);
    proof {
        assert(ws == insert_entry(wt, "sources"@, JsonV::Object(srcs)));
    }
    match extract_timestamp_from_path(source_path) {
        Some(ts) => {
            obj_insert(&mut out, copy_str("timestamp"), Json::Str(ts));
        },
        None => {},
    }
    Json::Object(out)
}

/// The record as selected: the `default` projection, or (for `docs`) the
/// whole joined record.
pub fn select_record(record: Json, select_default: bool) -> (r: Json)
    ensures
        r@ == (if select_default {
            project_default(record@)
        } else {
            record@
        }),
{
    if select_default {
        select_default_fields(&record)
    } else {
        record
    }
}

/// The line written for a kept record: for `docs`, its `{id, text, kind}`
/// document; pruned either way.
pub fn output_record(record: Json, docs: bool) -> (r: Json)
    ensures
        r@ == prune(
            if docs {
                doc_of(record@)
            } else {
                record@
            },
        ),
{
    if docs {
        deep_prune_json(ocd_entry_to_doc(&record))
    } else {
        deep_prune_json(record)
    }
}

// ------------------------------------------------------------------
// Records from raw text
// ------------------------------------------------------------------

/// A log's bill id: `bill_id`, or when that key is absent `bill_identifier`,
/// when it is a string.
pub open spec fn log_level_bill_id(log: JsonV) -> Option<Seq<char>> {
    str_opt(or_opt(get(log, "bill_id"@), get(log, "bill_identifier"@)))
}

/// A log's bill id (see `log_level_bill_id`).
pub fn log_bill_id_of(log: &Json) -> (r: Option<String>)
    ensures
        opt_view(r) == log_level_bill_id(log@),
{
    match and_get(Some(log), "bill_id") {
        Some(x) => match x.as_str() {
            Some(s) => Some(copy_str(s)),
            None => None,
        },
        None => match and_get(Some(log), "bill_identifier") {
            Some(x) => match x.as_str() {
                Some(s) => Some(copy_str(s)),
                None => None,
            },
            None => None,
        },
    }
}

/// Reads a log file's text: its JSON value and its bill id, or the parse
/// error when the text is no JSON value.
pub fn read_log(log_text: &str) -> (r: Result<(Json, Option<String>), String>)
    ensures
        match json_text_value(log_text@) {
            None => r is Err,
            Some(v) => r matches Ok((j, b)) && j@ == v && opt_view(b) == log_level_bill_id(v),
        },
{
    let log = parse_json_text(log_text)?;
    let bill_id = log_bill_id_of(&log);
    Ok((log, bill_id))
}

/// The bill metadata a record joins, from the text of its `metadata.json`
/// and that file's source path: present when the text is a JSON value.
pub open spec fn bill_from_text(meta: Option<(Seq<char>, Seq<char>)>) -> Option<(JsonV, Seq<char>)> {
    match meta {
        Some((text, path)) => match json_text_value(text) {
            Some(b) => Some((b, path)),
            None => None,
        },
        None => None,
    }
}

pub open spec fn meta_view(meta: Option<(&str, &str)>) -> Option<(Seq<char>, Seq<char>)> {
    match meta {
        Some((t, p)) => Some((t@, p@)),
        None => None,
    }
}

/// The joined record of one log (see `source_record`), with the bill read
/// from the text of its `metadata.json` (text, source path), when given.
pub fn source_record_from_text(
    log: Json,
    source_path: &str,
    specs: &Vec<(String, Vec<String>)>,
    metadata: Option<(&str, &str)>,
    tags: Vec<(String, Json)>,
) -> (r: Json)
    ensures
        r@ == source_record(
            log@,
            source_path@,
            spec_views(specs@),
            bill_from_text(meta_view(metadata)),
            jvo(tags@),
        ),
{
    let bill = match metadata {
        Some((text, path)) => match parse_json_text(text) {
            Ok(b) => Some((b, copy_str(path))),
            Err(_) => None,
        },
        None => None,
    };
    proof {
        assert(bill_view(bill) == bill_from_text(meta_view(metadata)));
    }
    build_source_record(log, source_path, specs, bill, tags)
}

// ------------------------------------------------------------------
// Source paths
// ------------------------------------------------------------------

/// What `pathdiff::diff_paths(path, base)` gives, as text: `path` relative
/// to `base`, or `None` when there is no such path.
pub uninterp spec fn path_diff(path: Seq<char>, base: Seq<char>) -> Option<Seq<char>>;

/// `pathdiff::diff_paths(path, base)`, written out with `to_string_lossy`.
/// Its result is named `path_diff(path, base)`; how pathdiff walks the
/// components (including `..` and `.`) is not restated here.
#[verifier::external_body]
fn diff_paths_str(path: &str, base: &str) -> (r: Option<String>)
    ensures
        match r {
            Some(s) => path_diff(path@, base@) == Some(s@),
            None => path_diff(path@, base@) is None,
        },
{
    pathdiff::diff_paths(path, base).map(|p| p.to_string_lossy().to_string())
}

/// A relative path that leaves its base: its first component is `..`.
pub open spec fn escapes(rel: Seq<char>) -> bool {
    rel == ".."@ || is_prefix("../"@, rel)
}

/// `\` written as `/`.
pub open spec fn slashed(s: Seq<char>) -> Seq<char> {
    replace_all(s, "\\"@, "/"@)
}

fn slashed_str(s: &str) -> (r: String)
    ensures
        r@ == slashed(s@),
{
    proof {
        reveal_strlit("\\");
    }
    replace_str(s, "\\", "/")
}

/// The path of a walked file relative to the govbot directory, as walked
/// (through any dataset link): `Some` when the diff exists and does not
/// leave the directory.
pub open spec fn walked_relative_spec(path: Seq<char>, base: Seq<char>) -> Option<Seq<char>> {
    match path_diff(path, base) {
        Some(rel) => if escapes(rel) {
            None
        } else {
            Some(slashed(rel))
        },
        None => None,
    }
}

/// See `walked_relative_spec`.
pub fn walked_relative_path(path: &str, base: &str) -> (r: Option<String>)
    ensures
        opt_view(r) == walked_relative_spec(path@, base@),
{
    match diff_paths_str(path, base) {
        Some(rel) => {
            let escape = str_eq(rel.as_str(), "..") || crate::text::starts_with_str(
                rel.as_str(),
                "../",
            );
            if escape {
                None
            } else {
                Some(slashed_str(rel.as_str()))
            }
        },
        None => None,
    }
}

/// The fallback when the walked path leaves the directory: the diff of the
/// canonical paths; failing that the walked diff; failing that the path
/// itself; `\` written as `/` in each case.
pub open spec fn fallback_relative_spec(
    path: Seq<char>,
    base: Seq<char>,
    canonical_path: Seq<char>,
    canonical_base: Seq<char>,
) -> Seq<char> {
    match path_diff(canonical_path, canonical_base) {
        Some(rel) => slashed(rel),
        None => match path_diff(path, base) {
            Some(rel) => slashed(rel),
            None => slashed(path),
        },
    }
}

/// See `fallback_relative_spec`. The canonical paths are the file's and the
/// directory's, each as itself when it cannot be canonicalized.
pub fn fallback_relative_path(
    path: &str,
    base: &str,
    canonical_path: &str,
    canonical_base: &str,
) -> (r: String)
    ensures
        r@ == fallback_relative_spec(path@, base@, canonical_path@, canonical_base@),
{
    match diff_paths_str(canonical_path, canonical_base) {
        Some(rel) => slashed_str(rel.as_str()),
        None => match diff_paths_str(path, base) {
            Some(rel) => slashed_str(rel.as_str()),
            None => slashed_str(path),
        },
    }
}

} // verus!
