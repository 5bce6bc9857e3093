//! `apply`: where a classified bill's tag files go, which tags are written,
//! and when an existing entry is left alone.
use vstd::prelude::*;
use crate::anchor::{join_path, path_join};
use crate::num::{decimal, usize_to_string};
use crate::route::{BillRouteView, doc_route, opt_view, parse_doc_route};
use crate::text::{concat2, copy_str, join, join_strs, str_eq, views};
use crate::wizard::TextBuilder;

verus! {

/// A tag of a classification result is kept when it matched and, if one tag
/// was requested, it is that tag.
pub open spec fn keeps(tag: (Seq<char>, bool), requested: Option<Seq<char>>) -> bool {
    tag.1 && match requested {
        Some(r) => r == tag.0,
        None => true,
    }
}

/// The positions of the kept tags, in order.
pub open spec fn matched_indices(tags: Seq<(Seq<char>, bool)>, requested: Option<Seq<char>>) -> Seq<
    int,
>
    decreases tags.len(),
{
    if tags.len() == 0 {
        Seq::empty()
    } else if keeps(tags.last(), requested) {
        matched_indices(tags.drop_last(), requested).push(tags.len() - 1)
    } else {
        matched_indices(tags.drop_last(), requested)
    }
}

/// Tags as (name, matched) pairs.
pub open spec fn tag_views(tags: Seq<(String, bool)>) -> Seq<(Seq<char>, bool)> {
    tags.map_values(|t: (String, bool)| (t.0@, t.1))
}

pub open spec fn as_ints(v: Seq<usize>) -> Seq<int> {
    v.map_values(|i: usize| i as int)
}

/// The positions in `tags` (name, matched) of the tags to write for a
/// bill: those that matched, narrowed to `requested` when given.
pub fn matched_tags(tags: &Vec<(String, bool)>, requested: Option<&str>) -> (r: Vec<usize>)
    ensures
        as_ints(r@) == matched_indices(tag_views(tags@), opt_view_str(requested)),
{
    let ghost tv = tag_views(tags@);
    let ghost req = opt_view_str(requested);
    let mut out: Vec<usize> = Vec::new();
    let mut i: usize = 0;
    proof {
        assert(tv.take(0) =~= Seq::<(Seq<char>, bool)>::empty());
        assert(as_ints(out@) =~= Seq::<int>::empty());
    }
    while i < tags.len()
        invariant
            i <= tags.len(),
            tv == tag_views(tags@),
            req == opt_view_str(requested),
            as_ints(out@) == matched_indices(tv.take(i as int), req),
        decreases tags.len() - i,
    {
        proof {
            assert(tv.take(i + 1).drop_last() =~= tv.take(i as int));
            assert(tv.take(i + 1).last() == tv[i as int]);
            assert(tv[i as int] == (tags@[i as int].0@, tags@[i as int].1));
        }
        let keep = tags[i].1 && match requested {
            Some(r) => str_eq(r, tags[i].0.as_str()),
            None => true,
        };
        if keep {
            let ghost before = out@;
            out.push(i);
            proof {
                assert(as_ints(out@) =~= as_ints(before).push(i as int));
            }
        }
        i = i + 1;
    }
    proof {
        assert(tv.take(tags@.len() as int) =~= tv);
    }
    out
}

pub open spec fn opt_view_str(o: Option<&str>) -> Option<Seq<char>> {
    match o {
        Some(s) => Some(s@),
        None => None,
    }
}

// ------------------------------------------------------------------
// Where tag files go
// ------------------------------------------------------------------

/// The root a bill's tag files go under: an explicit output directory
/// verbatim; otherwise `<project>/tags/<dataset>`, or `<project>/tags` when
/// the doc id has no dataset prefix.
pub open spec fn base_dir_spec(
    explicit: Option<Seq<char>>,
    dataset: Option<Seq<char>>,
    project: Seq<char>,
) -> Seq<char> {
    match explicit {
        Some(root) => root,
        None => match dataset {
            Some(d) => path_join(path_join(project, "tags"@), d),
            None => path_join(project, "tags"@),
        },
    }
}

/// Inside the root, the bill's jurisdiction path:
/// `country:<c>/state:<s>/sessions/<session>`.
pub open spec fn tags_dir_spec(base: Seq<char>, route: BillRouteView) -> Seq<char> {
    path_join(
        path_join(
            path_join(path_join(base, "country:"@ + route.country), "state:"@ + route.state),
            "sessions"@,
        ),
        route.session,
    )
}

/// The file of one tag: `<tag>.tag.json` in the tags directory.
pub open spec fn tag_path_spec(dir: Seq<char>, tag: Seq<char>) -> Seq<char> {
    path_join(dir, tag + ".tag.json"@)
}

/// The message for a result whose doc id is no dataset bill path.
pub open spec fn not_a_bill_message(doc: Seq<char>) -> Seq<char> {
    "Warning: skipping '"@ + doc
        + "' \u{2014} its id is not a dataset bill path. Stream documents in with `govbot source --select docs`."@
}

/// Where one classified bill's tag files are written.
pub struct BillWritePlan {
    /// The root the bill's tag files go under.
    pub base_dir: String,
    /// The directory of its tag files.
    pub tags_dir: String,
    /// The bill's id, the key of its entry in each tag file.
    pub bill_id: String,
    /// For each tag to write: its position among the result's tags, and the
    /// path of its tag file.
    pub writes: Vec<(usize, String)>,
}

/// What `apply` does with one classification result.
pub enum ApplyDecision {
    /// The doc id is no bill path: skip it with this warning.
    Skip(String),
    /// No tag to write.
    NothingMatched,
    /// Write these tag files.
    Write(BillWritePlan),
}

/// Decide what to write for one classification result of `doc` whose tags
/// are `tags` (name, matched).
pub fn plan_bill(
    doc: &str,
    tags: &Vec<(String, bool)>,
    requested: Option<&str>,
    explicit_output_dir: Option<&str>,
    project_dir: &str,
) -> (r: ApplyDecision)
    ensures
        match doc_route(doc@) {
            None => r matches ApplyDecision::Skip(m) && m@ == not_a_bill_message(doc@),
            Some(rt) => {
                let idx = matched_indices(tag_views(tags@), opt_view_str(requested));
                if idx.len() == 0 {
                    r is NothingMatched
                } else {
                    &&& r matches ApplyDecision::Write(p)
                    &&& p.base_dir@ == base_dir_spec(
                        opt_view_str(explicit_output_dir),
                        rt.dataset,
                        project_dir@,
                    )
                    &&& p.tags_dir@ == tags_dir_spec(p.base_dir@, rt)
                    &&& p.bill_id@ == rt.bill_id
                    &&& p.writes.len() == idx.len()
                    &&& forall|k: int|
                        0 <= k < idx.len() ==> {
                            &&& (#[trigger] p.writes@[k]).0 as int == idx[k]
                            &&& 0 <= idx[k] < tags.len()
                            &&& p.writes@[k].1@ == tag_path_spec(
                                p.tags_dir@,
                                tags@[idx[k]].0@,
                            )
                        }
                }
            },
        },
{
    let route = match parse_doc_route(doc) {
        Some(r) => r,
        None => {
            let mut t = TextBuilder::new();
            t.add("Warning: skipping '");
            t.add(doc);
            t.add(
                "' \u{2014} its id is not a dataset bill path. Stream documents in with `govbot source --select docs`.",
            );
            return ApplyDecision::Skip(t.text);
        },
    };
    let idx = matched_tags(tags, requested);
    if idx.len() == 0 {
        return ApplyDecision::NothingMatched;
    }
    let base_dir = match explicit_output_dir {
        Some(root) => copy_str(root),
        None => {
            let tags_root = join_path(project_dir, "tags");
            match &route.dataset {
                Some(d) => join_path(tags_root.as_str(), d.as_str()),
                None => tags_root,
            }
        },
    };
    let c = concat2("country:", route.country.as_str());
    let s = concat2("state:", route.state.as_str());
    let d1 = join_path(base_dir.as_str(), c.as_str());
    let d2 = join_path(d1.as_str(), s.as_str());
    let d3 = join_path(d2.as_str(), "sessions");
    let tags_dir = join_path(d3.as_str(), route.session.as_str());
    let ghost all_idx = matched_indices(tag_views(tags@), opt_view_str(requested));
    proof {
        lemma_matched_in_range(tag_views(tags@), opt_view_str(requested));
    }
    let mut writes: Vec<(usize, String)> = Vec::new();
    let mut k: usize = 0;
    while k < idx.len()
        invariant
            k <= idx.len(),
            as_ints(idx@) == all_idx,
            forall|j: int| 0 <= j < all_idx.len() ==> 0 <= #[trigger] all_idx[j] < tags@.len(),
            writes.len() == k,
            forall|j: int|
                0 <= j < k ==> {
                    &&& (#[trigger] writes@[j]).0 as int == all_idx[j]
                    &&& writes@[j].1@ == tag_path_spec(tags_dir@, tags@[all_idx[j]].0@)
                },
        decreases idx.len() - k,
    {
        let t = idx[k];
        proof {
            assert(all_idx[k as int] == t as int);
            assert(tag_views(tags@)[t as int].0 == tags@[t as int].0@);
        }
        let f = concat2(tags[t].0.as_str(), ".tag.json");
        let p = join_path(tags_dir.as_str(), f.as_str());
        writes.push((t, p));
        k = k + 1;
    }
    ApplyDecision::Write(BillWritePlan { base_dir, tags_dir, bill_id: route.bill_id, writes })
}

proof fn lemma_matched_in_range(tags: Seq<(Seq<char>, bool)>, requested: Option<Seq<char>>)
    ensures
        forall|j: int|
            0 <= j < matched_indices(tags, requested).len() ==> 0 <= #[trigger] matched_indices(
                tags,
                requested,
            )[j] < tags.len(),
    decreases tags.len(),
{
    if tags.len() > 0 {
        lemma_matched_in_range(tags.drop_last(), requested);
        let rest = matched_indices(tags.drop_last(), requested);
        let all = matched_indices(tags, requested);
        assert forall|j: int| 0 <= j < all.len() implies 0 <= #[trigger] all[j] < tags.len() by {
            if j < rest.len() {
                assert(all[j] == rest[j]);
            }
        }
    }
}

/// `b` does not open with `/`, so joining it keeps what comes before.
pub open spec fn relative(b: Seq<char>) -> bool {
    !(b.len() > 0 && b[0] == '/')
}

/// A dataset name as a path: non-empty, relative, and not ending in `/`.
pub open spec fn dataset_path(d: Seq<char>) -> bool {
    d.len() > 0 && relative(d) && d.last() != '/'
}

/// Joining the same relative component onto two non-empty paths that end
/// in the same character appends the same text to each.
proof fn lemma_join_same_tail(a1: Seq<char>, a2: Seq<char>, b: Seq<char>)
    requires
        a1.len() > 0,
        a2.len() > 0,
        a1.last() == a2.last(),
        relative(b),
    ensures
        path_join(a1, b).len() > 0,
        path_join(a2, b).len() > 0,
        path_join(a1, b).take(a1.len() as int) == a1,
        path_join(a2, b).take(a2.len() as int) == a2,
        path_join(a1, b).skip(a1.len() as int) == path_join(a2, b).skip(a2.len() as int),
        path_join(a1, b).last() == path_join(a2, b).last(),
{
    reveal_strlit("/");
    let j1 = path_join(a1, b);
    let j2 = path_join(a2, b);
    if a1.last() == '/' {
        assert(j1 == a1 + b && j2 == a2 + b);
        assert(j1.take(a1.len() as int) =~= a1);
        assert(j2.take(a2.len() as int) =~= a2);
        assert(j1.skip(a1.len() as int) =~= b);
        assert(j2.skip(a2.len() as int) =~= b);
    } else {
        assert(j1 == a1 + "/"@ + b && j2 == a2 + "/"@ + b);
        assert(j1.take(a1.len() as int) =~= a1);
        assert(j2.take(a2.len() as int) =~= a2);
        assert(j1.skip(a1.len() as int) =~= "/"@ + b);
        assert(j2.skip(a2.len() as int) =~= "/"@ + b);
    }
}

/// Two paths that share a tail after different heads differ.
proof fn lemma_distinct_heads(p1: Seq<char>, p2: Seq<char>, a1: Seq<char>, a2: Seq<char>)
    requires
        a1 != a2,
        a1.len() <= p1.len(),
        a2.len() <= p2.len(),
        p1.take(a1.len() as int) == a1,
        p2.take(a2.len() as int) == a2,
        p1.skip(a1.len() as int) == p2.skip(a2.len() as int),
    ensures
        p1 != p2,
{
    if p1 == p2 {
        assert(p1.skip(a1.len() as int).len() == p1.len() - a1.len());
        assert(p2.skip(a2.len() as int).len() == p2.len() - a2.len());
        assert(a1.len() == a2.len());
        assert(a1 == a2);
    }
}

/// Joining a relative component keeps the heads of two paths and the text
/// they share after them.
proof fn lemma_join_keeps_heads(
    h1: Seq<char>,
    h2: Seq<char>,
    a1: Seq<char>,
    a2: Seq<char>,
    b: Seq<char>,
)
    requires
        a1.len() > 0,
        a2.len() > 0,
        a1.last() == a2.last(),
        relative(b),
        h1.len() <= a1.len(),
        h2.len() <= a2.len(),
        a1.take(h1.len() as int) == h1,
        a2.take(h2.len() as int) == h2,
        a1.skip(h1.len() as int) == a2.skip(h2.len() as int),
    ensures
        path_join(a1, b).len() > 0,
        path_join(a2, b).len() > 0,
        path_join(a1, b).last() == path_join(a2, b).last(),
        h1.len() <= path_join(a1, b).len(),
        h2.len() <= path_join(a2, b).len(),
        path_join(a1, b).take(h1.len() as int) == h1,
        path_join(a2, b).take(h2.len() as int) == h2,
        path_join(a1, b).skip(h1.len() as int) == path_join(a2, b).skip(h2.len() as int),
{
    lemma_join_same_tail(a1, a2, b);
    let j1 = path_join(a1, b);
    let j2 = path_join(a2, b);
    let e = j1.skip(a1.len() as int);
    assert(j1 =~= a1 + e);
    assert(j2 =~= a2 + e);
    assert(j1.take(h1.len() as int) =~= a1.take(h1.len() as int));
    assert(j2.take(h2.len() as int) =~= a2.take(h2.len() as int));
    assert(j1.skip(h1.len() as int) =~= a1.skip(h1.len() as int) + e);
    assert(j2.skip(h2.len() as int) =~= a2.skip(h2.len() as int) + e);
}

/// The tag file of `tag` under two roots that end in neither `/`: each
/// keeps its root as head, and after it both hold the same text.
proof fn lemma_tag_path_heads(b1: Seq<char>, b2: Seq<char>, route: BillRouteView, tag: Seq<char>)
    requires
        b1.len() > 0,
        b2.len() > 0,
        b1.last() != '/',
        b2.last() != '/',
        relative(route.session),
        relative(tag),
    ensures
        ({
            let v1 = tag_path_spec(tags_dir_spec(b1, route), tag);
            let v2 = tag_path_spec(tags_dir_spec(b2, route), tag);
            &&& b1.len() <= v1.len()
            &&& b2.len() <= v2.len()
            &&& v1.take(b1.len() as int) == b1
            &&& v2.take(b2.len() as int) == b2
            &&& v1.skip(b1.len() as int) == v2.skip(b2.len() as int)
        }),
{
    reveal_strlit("/");
    reveal_strlit("country:");
    reveal_strlit("state:");
    reveal_strlit("sessions");
    reveal_strlit(".tag.json");
    let c = "country:"@ + route.country;
    let s = "state:"@ + route.state;
    let f = tag + ".tag.json"@;
    assert(c[0] == 'c' && s[0] == 's' && "sessions"@[0] == 's');
    assert(relative(f)) by {
        if tag.len() == 0 {
            assert(f[0] == '.');
        } else {
            assert(f[0] == tag[0]);
        }
    }
    let x1 = path_join(b1, c);
    let x2 = path_join(b2, c);
    assert(x1 == b1 + "/"@ + c && x2 == b2 + "/"@ + c);
    assert(x1.take(b1.len() as int) =~= b1);
    assert(x2.take(b2.len() as int) =~= b2);
    assert(x1.skip(b1.len() as int) =~= "/"@ + c);
    assert(x2.skip(b2.len() as int) =~= "/"@ + c);
    assert(x1.last() == c.last() && x2.last() == c.last());
    lemma_join_keeps_heads(b1, b2, x1, x2, s);
    let y1 = path_join(x1, s);
    let y2 = path_join(x2, s);
    lemma_join_keeps_heads(b1, b2, y1, y2, "sessions"@);
    let z1 = path_join(y1, "sessions"@);
    let z2 = path_join(y2, "sessions"@);
    lemma_join_keeps_heads(b1, b2, z1, z2, route.session);
    let w1 = path_join(z1, route.session);
    let w2 = path_join(z2, route.session);
    lemma_join_keeps_heads(b1, b2, w1, w2, f);
}

/// The dataset prefix keeps same-named tag files of different datasets
/// apart: with no explicit output directory, the file of a tag for a bill
/// of one dataset is never the file of that tag for the same jurisdiction
/// and session in another dataset. The datasets are relative paths that do
/// not end in `/`; the session and the tag are relative.
pub proof fn law_datasets_keep_tag_files_apart(
    project: Seq<char>,
    d1: Seq<char>,
    d2: Seq<char>,
    route: BillRouteView,
    tag: Seq<char>,
)
    requires
        d1 != d2,
        dataset_path(d1),
        dataset_path(d2),
        relative(route.session),
        relative(tag),
    ensures
        tag_path_spec(tags_dir_spec(base_dir_spec(None, Some(d1), project), route), tag)
            != tag_path_spec(tags_dir_spec(base_dir_spec(None, Some(d2), project), route), tag),
{
    reveal_strlit("/");
    reveal_strlit("tags");
    let q = path_join(project, "tags"@);
    assert(q.len() > 0);
    let b1 = path_join(q, d1);
    let b2 = path_join(q, d2);
    let sep = if q.last() == '/' {
        Seq::<char>::empty()
    } else {
        "/"@
    };
    assert(b1 == q + sep + d1 && b2 == q + sep + d2);
    assert(b1.take((q + sep).len() as int) =~= q + sep);
    assert(b2.take((q + sep).len() as int) =~= q + sep);
    assert(b1.skip((q + sep).len() as int) =~= d1);
    assert(b2.skip((q + sep).len() as int) =~= d2);
    assert(b1 != b2);
    assert(b1.last() == d1.last() && b2.last() == d2.last());
    lemma_tag_path_heads(b1, b2, route, tag);
    lemma_distinct_heads(
        tag_path_spec(tags_dir_spec(b1, route), tag),
        tag_path_spec(tags_dir_spec(b2, route), tag),
        b1,
        b2,
    );
}

/// With `--overwrite` off, a bill already in the tag file is left
/// untouched.
pub fn should_write(overwrite: bool, already_tagged: bool) -> (b: bool)
    ensures
        b == (overwrite || !already_tagged),
{
    overwrite || !already_tagged
}

/// The closing line of `apply`.
pub open spec fn apply_summary_of(
    written: nat,
    skipped: nat,
    dirs: Seq<Seq<char>>,
    fallback: Seq<char>,
) -> Seq<char> {
    "\n\u{2705} Persisted "@ + decimal(written) + " tagged bill(s) under "@ + (if dirs.len() == 0 {
        fallback
    } else {
        join(dirs, ", "@)
    }) + "; skipped "@ + decimal(skipped) + " entr(ies)."@
}

/// The summary of an `apply` run: how many bills were persisted under which
/// roots (`fallback` when none), and how many results were skipped.
pub fn apply_summary(written: usize, skipped: usize, dirs: &Vec<String>, fallback: &str) -> (r: String)
    ensures
        r@ == apply_summary_of(written as nat, skipped as nat, views(dirs@), fallback@),
{
    let w = usize_to_string(written);
    let s = usize_to_string(skipped);
    let where_ = if dirs.len() == 0 {
        copy_str(fallback)
    } else {
        join_strs(dirs, ", ")
    };
    let mut t = TextBuilder::new();
    t.add("\n\u{2705} Persisted ");
    t.add(w.as_str());
    t.add(" tagged bill(s) under ");
    t.add(where_.as_str());
    t.add("; skipped ");
    t.add(s.as_str());
    t.add(" entr(ies).");
    proof {
        assert(t.text@ =~= apply_summary_of(written as nat, skipped as nat, views(dirs@), fallback@));
    }
    t.text
}

} // verus!
