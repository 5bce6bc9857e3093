//! Editing and listing a project's datasets: `add`, `remove`, `ls` and
//! `search`.
use vstd::prelude::*;
use crate::anchor::{join_path, path_join};
use crate::error::Error;
use crate::registry::{Registry, ResolvedDataset, resolve_spec};
use crate::repos::{pad, pad_right};
use crate::text::{
    copy_str, eq_ignore_ascii_case, eq_ignore_ascii_case_str, str_eq, trim, trim_str, views,
};
use crate::wizard::TextBuilder;

verus! {

/// The project's `govbot.yml`, which must exist.
pub fn require_manifest_path(project_dir: &str, exists: bool) -> (r: Result<String, Error>)
    ensures
        exists ==> (r matches Ok(p) && p@ == path_join(project_dir@, "govbot.yml"@)),
        !exists ==> (r matches Err(Error::Config(m)) && m@ == "No govbot.yml in "@ + project_dir@
            + ". Run `govbot init` to scaffold one."@),
{
    if exists {
        Ok(join_path(project_dir, "govbot.yml"))
    } else {
        let mut t = TextBuilder::new();
        t.add("No govbot.yml in ");
        t.add(project_dir);
        t.add(". Run `govbot init` to scaffold one.");
        Err(Error::Config(t.text))
    }
}

/// What `add` appends for its arguments, in order: each trimmed; blanks
/// skipped; `all` (any case) as `all`; anything else as typed, once the
/// registry resolves it. The first identifier it does not resolve is the
/// error.
pub open spec fn to_add_spec(
    ns: Seq<char>,
    c: Seq<(Seq<char>, crate::registry::DatasetEntry)>,
    args: Seq<Seq<char>>,
) -> Result<Seq<Seq<char>>, Seq<char>>
    decreases args.len(),
{
    if args.len() == 0 {
        Ok(Seq::empty())
    } else {
        match to_add_spec(ns, c, args.drop_last()) {
            Err(e) => Err(e),
            Ok(rest) => {
                let id = trim(args.last());
                if id.len() == 0 {
                    Ok(rest)
                } else if eq_ignore_ascii_case(id, "all"@) {
                    Ok(rest.push("all"@))
                } else {
                    match resolve_spec(ns, c, id) {
                        Ok(_) => Ok(rest.push(id)),
                        Err(m) => Err(m),
                    }
                }
            },
        }
    }
}

/// The identifiers `add` appends, validated against the registry.
pub fn datasets_to_add(registry: &Registry, args: &Vec<String>) -> (r: Result<Vec<String>, Error>)
    ensures
        match r {
            Ok(v) => to_add_spec(registry.default_namespace@, registry.contents(), views(args@))
                == Ok::<Seq<Seq<char>>, Seq<char>>(views(v@)),
            Err(Error::Config(m)) => to_add_spec(
                registry.default_namespace@,
                registry.contents(),
                views(args@),
            ) == Err::<Seq<Seq<char>>, Seq<char>>(m@),
        },
{
    proof {
        reveal_strlit("all");
    }
    let ghost ns = registry.default_namespace@;
    let ghost c = registry.contents();
    let ghost av = views(args@);
    let mut out: Vec<String> = Vec::new();
    let mut i: usize = 0;
    proof {
        assert(av.take(0) =~= Seq::<Seq<char>>::empty());
        assert(views(out@) =~= Seq::<Seq<char>>::empty());
    }
    while i < args.len()
        invariant
            i <= args.len(),
            ns == registry.default_namespace@,
            c == registry.contents(),
            av == views(args@),
            to_add_spec(ns, c, av.take(i as int)) == Ok::<Seq<Seq<char>>, Seq<char>>(views(out@)),
        decreases args.len() - i,
    {
        proof {
            assert(av.take(i + 1).drop_last() =~= av.take(i as int));
            assert(av.take(i + 1).last() == args@[i as int]@);
        }
        let id = trim_str(args[i].as_str());
        let ghost before = views(out@);
        if id.unicode_len() == 0 {
        } else if eq_ignore_ascii_case_str(id.as_str(), "all") {
            out.push(copy_str("all"));
            proof {
                assert(views(out@) =~= before.push("all"@));
            }
        } else {
            match registry.resolve(id.as_str()) {
                Ok(_) => {
                    out.push(id);
                    proof {
                        assert(views(out@) =~= before.push(trim(args@[i as int]@)));
                    }
                },
                Err(e) => {
                    proof {
                        let rest = av.take(i as int);
                        assert(to_add_spec(ns, c, av.take(i + 1)) == match resolve_spec(
                            ns,
                            c,
                            trim(args@[i as int]@),
                        ) {
                            Ok(_) => Ok(before.push(trim(args@[i as int]@))),
                            Err(m) => Err::<Seq<Seq<char>>, Seq<char>>(m),
                        });
                        lemma_to_add_err_sticks(ns, c, av, i as int + 1);
                    }
                    return Err(e);
                },
            }
        }
        i = i + 1;
    }
    proof {
        assert(av.take(args@.len() as int) =~= av);
    }
    Ok(out)
}

proof fn lemma_to_add_err_sticks(
    ns: Seq<char>,
    c: Seq<(Seq<char>, crate::registry::DatasetEntry)>,
    args: Seq<Seq<char>>,
    k: int,
)
    requires
        0 <= k <= args.len(),
        to_add_spec(ns, c, args.take(k)) is Err,
    ensures
        to_add_spec(ns, c, args) == to_add_spec(ns, c, args.take(k)),
    decreases args.len() - k,
{
    if k < args.len() {
        assert(args.take(k + 1).drop_last() =~= args.take(k));
        lemma_to_add_err_sticks(ns, c, args, k + 1);
    } else {
        assert(args.take(k) =~= args);
    }
}

/// Which of `to_add` are new to the manifest's `datasets` (string entries
/// `existing`): each id not already there, nor added before it.
pub open spec fn added_spec(existing: Seq<Seq<char>>, to_add: Seq<Seq<char>>) -> Seq<Seq<char>>
    decreases to_add.len(),
{
    if to_add.len() == 0 {
        Seq::empty()
    } else {
        let rest = added_spec(existing, to_add.drop_last());
        if existing.contains(to_add.last()) || rest.contains(to_add.last()) {
            rest
        } else {
            rest.push(to_add.last())
        }
    }
}

fn contains_id(v: &Vec<String>, s: &str) -> (b: bool)
    ensures
        b == views(v@).contains(s@),
{
    let mut i: usize = 0;
    while i < v.len()
        invariant
            i <= v.len(),
            forall|j: int| 0 <= j < i ==> views(v@)[j] != s@,
        decreases v.len() - i,
    {
        if str_eq(v[i].as_str(), s) {
            proof {
                assert(views(v@)[i as int] == s@);
            }
            return true;
        }
        i = i + 1;
    }
    false
}

/// The identifiers `add` appends to `datasets` (whose string entries are
/// `existing`), in order; the others are already there.
pub fn datasets_added(existing: &Vec<String>, to_add: &Vec<String>) -> (r: Vec<String>)
    ensures
        views(r@) == added_spec(views(existing@), views(to_add@)),
{
    let ghost tv = views(to_add@);
    let mut out: Vec<String> = Vec::new();
    let mut i: usize = 0;
    proof {
        assert(tv.take(0) =~= Seq::<Seq<char>>::empty());
        assert(views(out@) =~= Seq::<Seq<char>>::empty());
    }
    while i < to_add.len()
        invariant
            i <= to_add.len(),
            tv == views(to_add@),
            views(out@) == added_spec(views(existing@), tv.take(i as int)),
        decreases to_add.len() - i,
    {
        proof {
            assert(tv.take(i + 1).drop_last() =~= tv.take(i as int));
            assert(tv.take(i + 1).last() == to_add@[i as int]@);
        }
        let id = to_add[i].as_str();
        if !contains_id(existing, id) && !contains_id(&out, id) {
            let ghost before = views(out@);
            out.push(copy_str(id));
            proof {
                assert(views(out@) =~= before.push(id@));
            }
        }
        i = i + 1;
    }
    proof {
        assert(tv.take(to_add@.len() as int) =~= tv);
    }
    out
}

/// The identifiers `remove` drops: each argument trimmed, blanks skipped.
pub open spec fn remove_targets_spec(args: Seq<Seq<char>>) -> Seq<Seq<char>>
    decreases args.len(),
{
    if args.len() == 0 {
        Seq::empty()
    } else {
        let rest = remove_targets_spec(args.drop_last());
        if trim(args.last()).len() == 0 {
            rest
        } else {
            rest.push(trim(args.last()))
        }
    }
}

/// For each entry of `datasets` (`None` for one that is not a string),
/// whether `remove` keeps it: it drops the string entries equal to a
/// target.
pub open spec fn kept(entry: Option<Seq<char>>, targets: Seq<Seq<char>>) -> bool {
    match entry {
        Some(s) => !targets.contains(s),
        None => true,
    }
}

/// Which entries of `datasets` `remove` keeps, for its arguments.
pub fn entries_kept(entries: &Vec<Option<String>>, args: &Vec<String>) -> (r: Vec<bool>)
    ensures
        r.len() == entries.len(),
        forall|i: int|
            0 <= i < entries.len() ==> #[trigger] r@[i] == kept(
                match entries@[i] {
                    Some(s) => Some(s@),
                    None => None,
                },
                remove_targets_spec(views(args@)),
            ),
{
    let ghost av = views(args@);
    let mut targets: Vec<String> = Vec::new();
    let mut i: usize = 0;
    proof {
        assert(av.take(0) =~= Seq::<Seq<char>>::empty());
        assert(views(targets@) =~= Seq::<Seq<char>>::empty());
    }
    while i < args.len()
        invariant
            i <= args.len(),
            av == views(args@),
            views(targets@) == remove_targets_spec(av.take(i as int)),
        decreases args.len() - i,
    {
        proof {
            assert(av.take(i + 1).drop_last() =~= av.take(i as int));
            assert(av.take(i + 1).last() == args@[i as int]@);
        }
        let t = trim_str(args[i].as_str());
        if t.unicode_len() > 0 {
            let ghost before = views(targets@);
            targets.push(t);
            proof {
                assert(views(targets@) =~= before.push(trim(args@[i as int]@)));
            }
        }
        i = i + 1;
    }
    proof {
        assert(av.take(args@.len() as int) =~= av);
    }
    let mut keep: Vec<bool> = Vec::new();
    let mut k: usize = 0;
    while k < entries.len()
        invariant
            k <= entries.len(),
            keep.len() == k,
            views(targets@) == remove_targets_spec(views(args@)),
            forall|j: int|
                0 <= j < k ==> #[trigger] keep@[j] == kept(
                    match entries@[j] {
                        Some(s) => Some(s@),
                        None => None,
                    },
                    remove_targets_spec(views(args@)),
                ),
        decreases entries.len() - k,
    {
        let b = match &entries[k] {
            Some(s) => !contains_id(&targets, s.as_str()),
            None => true,
        };
        keep.push(b);
        k = k + 1;
    }
    keep
}

// ------------------------------------------------------------------
// ls and search
// ------------------------------------------------------------------

/// The mark of a manifest dataset in `ls`: `✓` when cached (or `all`),
/// `·` otherwise.
pub open spec fn ls_mark_of(d: Seq<char>, local: Seq<Seq<char>>) -> Seq<char> {
    if local.contains(d) || d == "all"@ {
        "\u{2713}"@
    } else {
        "\u{b7}"@
    }
}

/// The `ls` line of a manifest dataset.
pub fn ls_manifest_line(d: &str, local: &Vec<String>) -> (r: String)
    ensures
        r@ == "  "@ + ls_mark_of(d@, views(local@)) + " "@ + d@,
{
    let mark = if contains_id(local, d) || str_eq(d, "all") {
        "\u{2713}"
    } else {
        "\u{b7}"
    };
    let mut t = TextBuilder::new();
    t.add("  ");
    t.add(mark);
    t.add(" ");
    t.add(d);
    t
        .text
}

/// A registry dataset's line in `ls` and `search`: its id in a 28-wide
/// column, then its name.
pub open spec fn dataset_line_of(d: crate::registry::ResolvedView) -> Seq<char> {
    "  "@ + pad_right(d.id, 28) + "  "@ + match d.entry.name {
        Some(n) => n,
        None => Seq::empty(),
    }
}

pub fn dataset_line(d: &ResolvedDataset) -> (r: String)
    ensures
        r@ == dataset_line_of(d@),
{
    let id = pad(d.id.as_str(), 28);
    let mut t = TextBuilder::new();
    t.add("  ");
    t.add(id.as_str());
    t.add("  ");
    match &d.entry.name {
        Some(n) => t.add(n.as_str()),
        None => {},
    }
    proof {
        assert(t.text@ =~= dataset_line_of(d@));
    }
    t.text
}

} // verus!
