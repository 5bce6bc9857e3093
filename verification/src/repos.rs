//! The project's `repos/` directory: which entries are datasets, which are
//! broken links, and what `pull` and `delete` do with them and report.
use vstd::prelude::*;
use crate::error::Error;
use crate::lock::DatasetPin;
use crate::num::{decimal, parse_usize, parse_usize_spec, usize_to_string};
use crate::registry::{Registry, ResolvedDataset, ResolvedView, resolve_spec};
use crate::smap::{sort_strings, str_sorted};
use crate::source::{short_dataset, short_dataset_name};
use crate::text::{
    copy_str, ends_with_str, is_suffix, lowercase, str_eq, strip_suffix_str, to_lowercase_str, trim,
    trim_str, views,
};
use crate::wizard::TextBuilder;

verus! {

// ------------------------------------------------------------------
// Entries of repos/
// ------------------------------------------------------------------

/// The dataset a `repos/` entry name denotes: the name without the dataset
/// suffix, or without the legacy `-data-pipeline` one.
pub open spec fn entry_short(name: Seq<char>, suffix: Seq<char>) -> Option<Seq<char>> {
    if is_suffix(suffix, name) {
        Some(name.take(name.len() - suffix.len()))
    } else if is_suffix("-data-pipeline"@, name) {
        Some(name.take(name.len() - "-data-pipeline"@.len()))
    } else {
        None
    }
}

/// The datasets the directory entries denote, in listing order.
pub open spec fn local_names(names: Seq<Seq<char>>, is_dir: Seq<bool>, suffix: Seq<char>) -> Seq<
    Seq<char>,
>
    decreases names.len(),
{
    if names.len() == 0 || is_dir.len() != names.len() {
        Seq::empty()
    } else {
        let rest = local_names(names.drop_last(), is_dir.drop_last(), suffix);
        if is_dir.last() {
            match entry_short(names.last(), suffix) {
                Some(s) => rest.push(s),
                None => rest,
            }
        } else {
            rest
        }
    }
}

fn entry_short_exec(name: &str, suffix: &str) -> (r: Option<String>)
    ensures
        opt_string_view(r) == entry_short(name@, suffix@),
{
    match strip_suffix_str(name, suffix) {
        Some(s) => Some(s),
        None => strip_suffix_str(name, "-data-pipeline"),
    }
}

pub open spec fn opt_string_view(o: Option<String>) -> Option<Seq<char>> {
    match o {
        Some(s) => Some(s@),
        None => None,
    }
}

/// The datasets present in `repos/`, sorted: every directory entry (a link
/// into the cache counts) whose name carries the dataset suffix, or the
/// legacy one, with that suffix removed. `is_dir[i]` tells whether
/// `names[i]` resolves to a directory.
pub fn local_datasets(names: &Vec<String>, is_dir: &Vec<bool>, suffix: &str) -> (r: Vec<String>)
    requires
        names.len() == is_dir.len(),
    ensures
        str_sorted(views(r@)),
        views(r@).to_multiset() == local_names(views(names@), is_dir@, suffix@).to_multiset(),
{
    let ghost nv = views(names@);
    let mut found: Vec<String> = Vec::new();
    let mut i: usize = 0;
    proof {
        assert(nv.take(0) =~= Seq::<Seq<char>>::empty());
        assert(views(found@) =~= local_names(nv.take(0), is_dir@.take(0), suffix@));
    }
    while i < names.len()
        invariant
            i <= names.len(),
            names.len() == is_dir.len(),
            nv == views(names@),
            views(found@) == local_names(nv.take(i as int), is_dir@.take(i as int), suffix@),
        decreases names.len() - i,
    {
        proof {
            assert(nv.take(i + 1).drop_last() =~= nv.take(i as int));
            assert(is_dir@.take(i + 1).drop_last() =~= is_dir@.take(i as int));
            assert(nv.take(i + 1).last() == names@[i as int]@);
        }
        if is_dir[i] {
            match entry_short_exec(names[i].as_str(), suffix) {
                Some(s) => {
                    let ghost before = views(found@);
                    found.push(s);
                    proof {
                        assert(views(found@) =~= before.push(found@[found@.len() - 1]@));
                    }
                },
                None => {},
            }
        }
        i = i + 1;
    }
    proof {
        assert(nv.take(names@.len() as int) =~= nv);
        assert(is_dir@.take(names@.len() as int) =~= is_dir@);
    }
    sort_strings(&found)
}

/// An entry that looks like a dataset link but does not resolve to a
/// directory (a dangling link, say).
pub open spec fn is_broken(name: Seq<char>, is_dir: bool, suffix: Seq<char>) -> bool {
    (is_suffix(suffix, name) || is_suffix("-data-pipeline"@, name)) && !is_dir
}

/// The broken entries, in listing order.
pub open spec fn broken_names(names: Seq<Seq<char>>, is_dir: Seq<bool>, suffix: Seq<char>) -> Seq<
    Seq<char>,
>
    decreases names.len(),
{
    if names.len() == 0 || is_dir.len() != names.len() {
        Seq::empty()
    } else {
        let rest = broken_names(names.drop_last(), is_dir.drop_last(), suffix);
        if is_broken(names.last(), is_dir.last(), suffix) {
            rest.push(names.last())
        } else {
            rest
        }
    }
}

/// The entries of `repos/` that look like dataset links but do not
/// resolve to a directory, sorted.
pub fn broken_dataset_entries(names: &Vec<String>, is_dir: &Vec<bool>, suffix: &str) -> (r: Vec<
    String,
>)
    requires
        names.len() == is_dir.len(),
    ensures
        str_sorted(views(r@)),
        views(r@).to_multiset() == broken_names(views(names@), is_dir@, suffix@).to_multiset(),
{
    let ghost nv = views(names@);
    let mut found: Vec<String> = Vec::new();
    let mut i: usize = 0;
    proof {
        assert(nv.take(0) =~= Seq::<Seq<char>>::empty());
        assert(views(found@) =~= broken_names(nv.take(0), is_dir@.take(0), suffix@));
    }
    while i < names.len()
        invariant
            i <= names.len(),
            names.len() == is_dir.len(),
            nv == views(names@),
            views(found@) == broken_names(nv.take(i as int), is_dir@.take(i as int), suffix@),
        decreases names.len() - i,
    {
        proof {
            assert(nv.take(i + 1).drop_last() =~= nv.take(i as int));
            assert(is_dir@.take(i + 1).drop_last() =~= is_dir@.take(i as int));
            assert(nv.take(i + 1).last() == names@[i as int]@);
        }
        let looks = ends_with_str(names[i].as_str(), suffix) || ends_with_str(
            names[i].as_str(),
            "-data-pipeline",
        );
        if looks && !is_dir[i] {
            let ghost before = views(found@);
            found.push(copy_str(names[i].as_str()));
            proof {
                assert(views(found@) =~= before.push(names@[i as int]@));
            }
        }
        i = i + 1;
    }
    proof {
        assert(nv.take(names@.len() as int) =~= nv);
        assert(is_dir@.take(names@.len() as int) =~= is_dir@);
    }
    sort_strings(&found)
}

// ------------------------------------------------------------------
// Parallelism
// ------------------------------------------------------------------

/// How many datasets are processed at once: the `--parallel` flag, else a
/// `GOVBOT_JOBS` value that parses as a count, else 4.
pub open spec fn jobs_spec(parallel: Option<usize>, env: Option<Seq<char>>) -> usize {
    match parallel {
        Some(p) => p,
        None => match env {
            Some(e) => match parse_usize_spec(e) {
                Some(n) => n,
                None => 4,
            },
            None => 4,
        },
    }
}

pub fn jobs(parallel: Option<usize>, env: Option<&str>) -> (r: usize)
    ensures
        r == jobs_spec(parallel, match env {
            Some(e) => Some(e@),
            None => None,
        }),
{
    match parallel {
        Some(p) => p,
        None => match env {
            Some(e) => match parse_usize(e) {
                Some(n) => n,
                None => 4,
            },
            None => 4,
        },
    }
}

// ------------------------------------------------------------------
// delete
// ------------------------------------------------------------------

/// What `delete` removes for its arguments, in order: each trimmed and
/// lower-cased; blanks skipped; `all` is every local dataset; any other
/// identifier is its short dataset name.
pub open spec fn delete_targets_spec(args: Seq<Seq<char>>, local: Seq<Seq<char>>) -> Seq<Seq<char>>
    decreases args.len(),
{
    if args.len() == 0 {
        Seq::empty()
    } else {
        let rest = delete_targets_spec(args.drop_last(), local);
        let l = lowercase(trim(args.last()));
        if l.len() == 0 {
            rest
        } else if l == "all"@ {
            rest + local
        } else {
            rest.push(short_dataset(l))
        }
    }
}

/// The datasets `delete` removes for `args`, given the datasets present
/// locally.
pub fn delete_targets(args: &Vec<String>, local: &Vec<String>) -> (r: Vec<String>)
    ensures
        views(r@) == delete_targets_spec(views(args@), views(local@)),
{
    proof {
        reveal_strlit("all");
    }
    let ghost av = views(args@);
    let mut out: Vec<String> = Vec::new();
    let mut i: usize = 0;
    proof {
        assert(av.take(0) =~= Seq::<Seq<char>>::empty());
        assert(views(out@) =~= Seq::<Seq<char>>::empty());
    }
    while i < args.len()
        invariant
            i <= args.len(),
            av == views(args@),
            views(out@) == delete_targets_spec(av.take(i as int), views(local@)),
        decreases args.len() - i,
    {
        proof {
            assert(av.take(i + 1).drop_last() =~= av.take(i as int));
            assert(av.take(i + 1).last() == args@[i as int]@);
        }
        let t = trim_str(args[i].as_str());
        let l = to_lowercase_str(t.as_str());
        let ghost before = views(out@);
        if l.unicode_len() == 0 {
        } else if str_eq(l.as_str(), "all") {
            let mut k: usize = 0;
            while k < local.len()
                invariant
                    k <= local.len(),
                    views(out@) == before + views(local@).take(k as int),
                decreases local.len() - k,
            {
                let ghost b2 = views(out@);
                out.push(copy_str(local[k].as_str()));
                proof {
                    assert(views(out@) =~= b2.push(local@[k as int]@));
                    assert(views(local@).take(k + 1) =~= views(local@).take(k as int).push(
                        local@[k as int]@,
                    ));
                    assert(views(out@) =~= before + views(local@).take(k + 1));
                }
                k = k + 1;
            }
            proof {
                assert(views(local@).take(local@.len() as int) =~= views(local@));
            }
        } else {
            out.push(short_dataset_name(l.as_str()));
            proof {
                assert(views(out@) =~= before.push(short_dataset(l@)));
            }
        }
        i = i + 1;
    }
    proof {
        assert(av.take(args@.len() as int) =~= av);
    }
    out
}

/// `s` left-aligned in a field of `w` characters (`{:<w}`).
pub open spec fn pad_right(s: Seq<char>, w: nat) -> Seq<char> {
    if s.len() < w {
        s + Seq::new((w - s.len()) as nat, |i: int| ' ')
    } else {
        s
    }
}

pub fn pad(s: &str, w: usize) -> (r: String)
    ensures
        r@ == pad_right(s@, w as nat),
{
    let mut t = TextBuilder::new();
    t.add(s);
    let n = s.unicode_len();
    let mut k: usize = n;
    while k < w
        invariant
            n == s@.len(),
            n <= k,
            k == n || k <= w,
            t.text@ == s@ + Seq::new((k - n) as nat, |i: int| ' '),
        decreases w - k,
    {
        let ghost before = t.text@;
        t.add(" ");
        proof {
            reveal_strlit(" ");
            assert(t.text@ =~= s@ + Seq::new((k + 1 - n) as nat, |i: int| ' '));
        }
        k = k + 1;
    }
    proof {
        if n >= w {
            assert(t.text@ =~= s@);
        }
    }
    t.text
}

/// How deleting one dataset went.
pub enum DeleteStatus {
    Deleted,
    NotFound,
    Failed(String),
}

/// A removal that succeeded deletes what existed and finds nothing
/// otherwise; a failed one carries its error.
pub fn delete_status(existed: bool, outcome: Result<(), Error>) -> (r: DeleteStatus)
    ensures
        match outcome {
            Ok(()) => if existed {
                r is Deleted
            } else {
                r is NotFound
            },
            Err(Error::Config(m)) => r matches DeleteStatus::Failed(e) && e@ == m@,
        },
{
    match outcome {
        Ok(()) => if existed {
            DeleteStatus::Deleted
        } else {
            DeleteStatus::NotFound
        },
        Err(Error::Config(m)) => DeleteStatus::Failed(m),
    }
}

/// The line reported for one dataset.
pub open spec fn delete_line_of(locale: Seq<char>, status: DeleteStatus) -> Seq<char> {
    pad_right(locale, 4) + match status {
        DeleteStatus::Deleted => "  deleted"@,
        DeleteStatus::NotFound => "  not_found"@,
        DeleteStatus::Failed(e) => "  failed     "@ + e@,
    }
}

pub fn delete_line(locale: &str, status: &DeleteStatus) -> (r: String)
    ensures
        r@ == delete_line_of(locale@, *status),
{
    let mut t = TextBuilder::new();
    let p = pad(locale, 4);
    t.add(p.as_str());
    match status {
        DeleteStatus::Deleted => t.add("  deleted"),
        DeleteStatus::NotFound => t.add("  not_found"),
        DeleteStatus::Failed(e) => {
            t.add("  failed     ");
            t.add(e.as_str());
        },
    }
    proof {
        assert(t.text@ =~= delete_line_of(locale@, *status));
    }
    t.text
}

/// The closing line of `delete`.
pub open spec fn delete_summary_of(deleted: nat, failed: nat, total: nat) -> Seq<char> {
    if failed > 0 {
        "\n\u{274c} Errors occurred: "@ + decimal(failed) + "/"@ + decimal(total)
    } else if deleted > 0 {
        "\n\u{2705} Successfully deleted "@ + decimal(deleted) + " repositories!"@
    } else {
        "\n\u{2705} No repositories found to delete."@
    }
}

pub fn delete_summary(deleted: usize, failed: usize, total: usize) -> (r: String)
    ensures
        r@ == delete_summary_of(deleted as nat, failed as nat, total as nat),
{
    let mut t = TextBuilder::new();
    if failed > 0 {
        let f = usize_to_string(failed);
        let n = usize_to_string(total);
        t.add("\n\u{274c} Errors occurred: ");
        t.add(f.as_str());
        t.add("/");
        t.add(n.as_str());
    } else if deleted > 0 {
        let d = usize_to_string(deleted);
        t.add("\n\u{2705} Successfully deleted ");
        t.add(d.as_str());
        t.add(" repositories!");
    } else {
        t.add("\n\u{2705} No repositories found to delete.");
    }
    proof {
        assert(t.text@ =~= delete_summary_of(deleted as nat, failed as nat, total as nat));
    }
    t.text
}

} // verus!
