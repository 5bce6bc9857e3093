//! `govbot run`: which transforms run, how each is invoked, and the argv of
//! every stage (pull, source, publish).
use vstd::prelude::*;
use crate::anchor::{join_path, path_join};
use crate::config::{Command_, Manifest, Transform, argv_of, copy_strs};
use crate::error::Error;
use crate::registry::copy_opt;
use crate::route::opt_view;
use crate::smap::{StrMap, keys_of, lookup_key};
use crate::text::{
    after_last, after_last_str, concat2, contains, contains_str, copy_str, str_eq, views,
};

verus! {

pub struct TransformView {
    pub argv: Seq<Seq<char>>,
    pub reads: Seq<char>,
    pub writes: Seq<char>,
    pub classifier: Option<Seq<char>>,
}

pub open spec fn transform_view(t: Transform) -> TransformView {
    TransformView {
        argv: argv_of(t.command),
        reads: t.reads@,
        writes: t.writes@,
        classifier: opt_view(t.classifier),
    }
}

pub open spec fn named_views(v: Seq<(String, Transform)>) -> Seq<(Seq<char>, TransformView)> {
    v.map_values(|e: (String, Transform)| (e.0@, transform_view(e.1)))
}

pub fn copy_command(c: &Command_) -> (r: Command_)
    ensures
        argv_of(r) == argv_of(*c),
{
    match c {
        Command_::Shell(s) => Command_::Shell(copy_str(s.as_str())),
        Command_::Argv(v) => Command_::Argv(copy_strs(v)),
    }
}

pub fn copy_transform(t: &Transform) -> (r: Transform)
    ensures
        transform_view(r) == transform_view(*t),
{
    Transform {
        command: copy_command(&t.command),
        reads: copy_str(t.reads.as_str()),
        writes: copy_str(t.writes.as_str()),
        classifier: copy_opt(&t.classifier),
    }
}

/// The stages of a pipeline that name a declared transform, in order.
pub open spec fn pipeline_stages(
    stages: Seq<Seq<char>>,
    transforms: Seq<(Seq<char>, Transform)>,
) -> Seq<(Seq<char>, TransformView)>
    decreases stages.len(),
{
    if stages.len() == 0 {
        Seq::empty()
    } else {
        let r = pipeline_stages(stages.drop_last(), transforms);
        match lookup_key(transforms, stages.last()) {
            Some(t) => r.push((stages.last(), transform_view(t))),
            None => r,
        }
    }
}

/// The built-in classify transform: `fastclass classify -` reading `docs`,
/// writing `classification`, with the classifier bundle at `.`.
pub open spec fn default_classify() -> (Seq<char>, TransformView) {
    (
        "classify"@,
        TransformView {
            argv: seq!["fastclass"@, "classify"@, "-"@],
            reads: "docs"@,
            writes: "classification"@,
            classifier: Some("."@),
        },
    )
}

/// The transforms `govbot run` executes: the transform stages of the first
/// pipeline (by name) when there are any; otherwise every declared
/// transform in name order; otherwise the built-in classify transform.
pub open spec fn pipeline_transforms_spec(
    pipelines: Seq<(Seq<char>, Vec<String>)>,
    transforms: Seq<(Seq<char>, Transform)>,
) -> Seq<(Seq<char>, TransformView)> {
    let first = if pipelines.len() > 0 {
        pipeline_stages(views(pipelines[0].1@), transforms)
    } else {
        Seq::empty()
    };
    if first.len() > 0 {
        first
    } else if transforms.len() > 0 {
        transforms.map_values(|e: (Seq<char>, Transform)| (e.0, transform_view(e.1)))
    } else {
        seq![default_classify()]
    }
}

/// Resolve which transforms `govbot run` executes (see
/// `pipeline_transforms_spec`).
pub fn resolve_pipeline_transforms(manifest: &Manifest) -> (r: Vec<(String, Transform)>)
    ensures
        named_views(r@) == pipeline_transforms_spec(
            manifest.pipelines.contents(),
            manifest.transforms.contents(),
        ),
{
    let ghost tc = manifest.transforms.contents();
    let mut out: Vec<(String, Transform)> = Vec::new();
    if manifest.pipelines.len() > 0 {
        let (_, stages) = manifest.pipelines.entry(0);
        let ghost sv = views(stages@);
        let mut i: usize = 0;
        proof {
            assert(sv.take(0) =~= Seq::<Seq<char>>::empty());
            assert(named_views(out@) =~= Seq::<(Seq<char>, TransformView)>::empty());
        }
        while i < stages.len()
            invariant
                i <= stages.len(),
                sv == views(stages@),
                tc == manifest.transforms.contents(),
                named_views(out@) == pipeline_stages(sv.take(i as int), tc),
            decreases stages.len() - i,
        {
            proof {
                assert(sv.take(i + 1).drop_last() =~= sv.take(i as int));
                assert(sv.take(i + 1).last() == stages@[i as int]@);
            }
            match manifest.transforms.get(stages[i].as_str()) {
                Some(t) => {
                    let ghost before = out@;
                    let e = (copy_str(stages[i].as_str()), copy_transform(t));
                    let ghost ge = e;
                    out.push(e);
                    proof {
                        assert(named_views(out@) =~= named_views(before).push(
                            (ge.0@, transform_view(ge.1)),
                        ));
                    }
                },
                None => {},
            }
            i = i + 1;
        }
        proof {
            assert(sv.take(sv.len() as int) =~= sv);
        }
        if out.len() > 0 {
            return out;
        }
    }
    proof {
        assert(named_views(out@).len() == 0);
    }
    let n = manifest.transforms.len();
    if n > 0 {
        let mut all: Vec<(String, Transform)> = Vec::new();
        let mut i: usize = 0;
        while i < n
            invariant
                i <= n,
                n == tc.len(),
                tc == manifest.transforms.contents(),
                named_views(all@) == tc.take(i as int).map_values(
                    |e: (Seq<char>, Transform)| (e.0, transform_view(e.1)),
                ),
            decreases n - i,
        {
            let (k, t) = manifest.transforms.entry(i);
            let ghost before = all@;
            let e = (copy_str(k), copy_transform(t));
            let ghost ge = e;
            all.push(e);
            proof {
                assert(named_views(all@) =~= named_views(before).push((ge.0@, transform_view(ge.1))));
                assert(tc.take(i + 1).map_values(
                    |e: (Seq<char>, Transform)| (e.0, transform_view(e.1)),
                ) =~= tc.take(i as int).map_values(
                    |e: (Seq<char>, Transform)| (e.0, transform_view(e.1)),
                ).push((tc[i as int].0, transform_view(tc[i as int].1))));
            }
            i = i + 1;
        }
        proof {
            assert(tc.take(n as int) =~= tc);
        }
        return all;
    }
    let mut argv: Vec<String> = Vec::new();
    argv.push(copy_str("fastclass"));
    argv.push(copy_str("classify"));
    argv.push(copy_str("-"));
    let t = Transform {
        command: Command_::Argv(argv),
        reads: copy_str("docs"),
        writes: copy_str("classification"),
        classifier: Some(copy_str(".")),
    };
    let ghost tv = transform_view(t);
    let mut d: Vec<(String, Transform)> = Vec::new();
    d.push((copy_str("classify"), t));
    proof {
        assert(tv.argv =~= seq!["fastclass"@, "classify"@, "-"@]);
        assert(named_views(d@) =~= seq![default_classify()]);
    }
    d
}

/// How a transform is invoked: the executable name and its arguments
/// (the rest of its argv, then `classifier=<bundle>` when it names one).
pub open spec fn invocation_spec(t: TransformView) -> Option<(Seq<char>, Seq<Seq<char>>)> {
    if t.argv.len() == 0 {
        None
    } else {
        Some(
            (
                t.argv[0],
                t.argv.drop_first() + match t.classifier {
                    Some(c) => seq!["classifier="@ + c],
                    None => Seq::empty(),
                },
            ),
        )
    }
}

/// The executable name and arguments of a transform (see
/// `invocation_spec`); an empty command is an error.
pub fn resolve_transform(t: &Transform) -> (r: Result<(String, Vec<String>), Error>)
    ensures
        match r {
            Ok((bin, args)) => invocation_spec(transform_view(*t)) == Some((bin@, views(args@))),
            Err(Error::Config(m)) => invocation_spec(transform_view(*t)) is None && m@
                == "transform `command` is empty"@,
        },
{
    let mut argv = t.command.argv();
    if argv.len() == 0 {
        return Err(Error::Config(copy_str("transform `command` is empty")));
    }
    let ghost av = views(argv@);
    let bin = argv.remove(0);
    proof {
        assert(views(argv@) =~= av.drop_first());
    }
    match &t.classifier {
        Some(c) => {
            let ghost before = argv@;
            argv.push(concat2("classifier=", c.as_str()));
            proof {
                assert(views(argv@) =~= views(before) + seq!["classifier="@ + c@]);
            }
        },
        None => {
            proof {
                assert(views(argv@) =~= views(argv@) + Seq::<Seq<char>>::empty());
            }
        },
    }
    Ok((bin, argv))
}

/// Where a transform binary is looked for, in order: a name with a path
/// separator is used as it is; otherwise each `PATH` directory, then
/// `<home>/.cargo/bin` and `<home>/.govbot/bin`.
pub open spec fn binary_candidates_spec(
    name: Seq<char>,
    path_dirs: Seq<Seq<char>>,
    home: Option<Seq<char>>,
) -> Seq<Seq<char>> {
    if contains(name, "/"@) || contains(name, "\\"@) {
        seq![name]
    } else {
        path_dirs.map_values(|d: Seq<char>| path_join(d, name)) + match home {
            Some(h) => seq![
                path_join(path_join(h, ".cargo/bin"@), name),
                path_join(path_join(h, ".govbot/bin"@), name),
            ],
            None => Seq::empty(),
        }
    }
}

/// The paths to try for a transform binary (see `binary_candidates_spec`);
/// the first that is a file is the one used.
pub fn binary_candidates(name: &str, path_dirs: &Vec<String>, home: Option<&str>) -> (r: Vec<
    String,
>)
    ensures
        views(r@) == binary_candidates_spec(name@, views(path_dirs@), opt_str_view(home)),
{
    let mut out: Vec<String> = Vec::new();
    if contains_str(name, "/") || contains_str(name, "\\") {
        out.push(copy_str(name));
        proof {
            assert(views(out@) =~= seq![name@]);
        }
        return out;
    }
    let mut i: usize = 0;
    while i < path_dirs.len()
        invariant
            i <= path_dirs.len(),
            views(out@) == views(path_dirs@).take(i as int).map_values(
                |d: Seq<char>| path_join(d, name@),
            ),
        decreases path_dirs.len() - i,
    {
        let ghost before = out@;
        out.push(join_path(path_dirs[i].as_str(), name));
        proof {
            assert(views(out@) =~= views(before).push(path_join(path_dirs@[i as int]@, name@)));
            assert(views(path_dirs@).take(i + 1).map_values(|d: Seq<char>| path_join(d, name@))
                =~= views(path_dirs@).take(i as int).map_values(
                |d: Seq<char>| path_join(d, name@),
            ).push(path_join(path_dirs@[i as int]@, name@)));
        }
        i = i + 1;
    }
    proof {
        assert(views(path_dirs@).take(path_dirs@.len() as int) =~= views(path_dirs@));
    }
    let ghost mid = views(out@);
    match home {
        Some(h) => {
            let a = join_path(join_path(h, ".cargo/bin").as_str(), name);
            let b = join_path(join_path(h, ".govbot/bin").as_str(), name);
            out.push(a);
            out.push(b);
            proof {
                assert(views(out@) =~= mid + seq![
                    path_join(path_join(h@, ".cargo/bin"@), name@),
                    path_join(path_join(h@, ".govbot/bin"@), name@),
                ]);
            }
        },
        None => {
            proof {
                assert(views(out@) =~= mid + Seq::<Seq<char>>::empty());
            }
        },
    }
    out
}

pub open spec fn opt_str_view(o: Option<&str>) -> Option<Seq<char>> {
    match o {
        Some(s) => Some(s@),
        None => None,
    }
}

/// The `repos/` directory name a manifest dataset id is seeded under:
/// the id's last path segment with the dataset suffix.
pub fn seed_dir_name(manifest_id: &str, suffix: &str) -> (r: String)
    ensures
        r@ == after_last(manifest_id@, "/"@) + suffix@,
{
    let bare = after_last_str(manifest_id, "/");
    concat2(bare.as_str(), suffix)
}

/// The directories that make a dataset locally seeded (either one having
/// an entry): `<repos>/<seed dir>` and `<repos>/<id>`.
pub fn local_seed_candidates(repos_dir: &str, manifest_id: &str, suffix: &str) -> (r: Vec<String>)
    ensures
        views(r@) == seq![
            path_join(repos_dir@, after_last(manifest_id@, "/"@) + suffix@),
            path_join(repos_dir@, manifest_id@),
        ],
{
    let mut out: Vec<String> = Vec::new();
    out.push(join_path(repos_dir, seed_dir_name(manifest_id, suffix).as_str()));
    out.push(join_path(repos_dir, manifest_id));
    proof {
        assert(views(out@) =~= seq![
            path_join(repos_dir@, after_last(manifest_id@, "/"@) + suffix@),
            path_join(repos_dir@, manifest_id@),
        ]);
    }
    out
}

/// True when either candidate directory has an entry (`has_entries` holds,
/// per candidate, what the file system says).
pub fn is_local_seed(has_entries: &Vec<bool>) -> (b: bool)
    ensures
        b == exists|i: int| 0 <= i < has_entries@.len() && has_entries@[i],
{
    let mut i: usize = 0;
    while i < has_entries.len()
        invariant
            i <= has_entries.len(),
            forall|j: int| 0 <= j < i ==> !has_entries@[j],
        decreases has_entries.len() - i,
    {
        if has_entries[i] {
            return true;
        }
        i = i + 1;
    }
    false
}

/// The `--repos` list the source stage gets: `[all]` becomes the empty
/// list (every linked dataset); any other list passes through as it is.
pub open spec fn source_repos_spec(datasets: Seq<Seq<char>>) -> Seq<Seq<char>> {
    if datasets == seq!["all"@] {
        Seq::empty()
    } else {
        datasets
    }
}

/// Translate the manifest's `datasets:` to the source stage's `--repos`
/// list (see `source_repos_spec`).
pub fn source_repos_from_manifest(datasets: &Vec<String>) -> (r: Vec<String>)
    ensures
        views(r@) == source_repos_spec(views(datasets@)),
{
    if datasets.len() == 1 && str_eq(datasets[0].as_str(), "all") {
        proof {
            assert(views(datasets@) =~= seq!["all"@]);
        }
        return Vec::new();
    }
    proof {
        assert(views(datasets@).len() == datasets@.len());
        if views(datasets@) == seq!["all"@] {
            assert(datasets@.len() == 1);
            assert(views(datasets@)[0] == datasets@[0]@);
        }
    }
    copy_strs(datasets)
}

/// The step-1 heading of `govbot run`.
pub open spec fn pull_step_label(all_locally_seeded: bool, has_repos: bool) -> Seq<char> {
    if all_locally_seeded {
        "Using local seed for"@
    } else if has_repos {
        "Updating"@
    } else {
        "Pulling"@
    }
}

pub fn pull_step_heading(all_locally_seeded: bool, has_repos: bool) -> (r: String)
    ensures
        r@ == pull_step_label(all_locally_seeded, has_repos),
{
    if all_locally_seeded {
        copy_str("Using local seed for")
    } else if has_repos {
        copy_str("Updating")
    } else {
        copy_str("Pulling")
    }
}

/// Whether every manifest dataset is seeded locally: `all` never is, an
/// empty list is not.
pub open spec fn all_seeded_spec(datasets: Seq<Seq<char>>, seeded: Seq<bool>) -> bool {
    datasets.len() > 0 && forall|i: int|
        0 <= i < datasets.len() ==> (#[trigger] datasets[i] != "all"@ && seeded[i])
}

pub fn all_locally_seeded(datasets: &Vec<String>, seeded: &Vec<bool>) -> (b: bool)
    requires
        seeded@.len() == datasets@.len(),
    ensures
        b == all_seeded_spec(views(datasets@), seeded@),
{
    if datasets.len() == 0 {
        return false;
    }
    let mut i: usize = 0;
    while i < datasets.len()
        invariant
            i <= datasets.len(),
            seeded@.len() == datasets@.len(),
            forall|j: int| 0 <= j < i ==> (#[trigger] views(datasets@)[j] != "all"@ && seeded@[j]),
        decreases datasets.len() - i,
    {
        if str_eq(datasets[i].as_str(), "all") || !seeded[i] {
            proof {
                assert(views(datasets@)[i as int] == datasets@[i as int]@);
            }
            return false;
        }
        proof {
            assert(views(datasets@)[i as int] == datasets@[i as int]@);
            assert(views(datasets@)[i as int] != "all"@ && seeded@[i as int]);
            assert forall|j: int| 0 <= j < i + 1 implies (#[trigger] views(datasets@)[j] != "all"@
                && seeded@[j]) by {
                if j == i {
                } else {
                    assert(0 <= j < i);
                }
            }
        }
        i = i + 1;
    }
    true
}

/// `["--govbot-dir", d]` when a govbot directory was given.
pub open spec fn govbot_dir_args(d: Option<Seq<char>>) -> Seq<Seq<char>> {
    match d {
        Some(d) => seq!["--govbot-dir"@, d],
        None => Seq::empty(),
    }
}

fn push_govbot_dir(out: &mut Vec<String>, govbot_dir: Option<&str>)
    ensures
        views(final(out)@) == views(old(out)@) + govbot_dir_args(opt_str_view(govbot_dir)),
{
    let ghost before = views(out@);
    match govbot_dir {
        Some(d) => {
            out.push(copy_str("--govbot-dir"));
            out.push(copy_str(d));
            proof {
                assert(views(out@) =~= before + seq!["--govbot-dir"@, d@]);
            }
        },
        None => {
            proof {
                assert(views(out@) =~= before + Seq::<Seq<char>>::empty());
            }
        },
    }
}

fn push_all(out: &mut Vec<String>, items: &Vec<String>)
    ensures
        views(final(out)@) == views(old(out)@) + views(items@),
{
    let ghost before = views(out@);
    let mut i: usize = 0;
    while i < items.len()
        invariant
            i <= items.len(),
            views(out@) == before + views(items@).take(i as int),
        decreases items.len() - i,
    {
        let ghost b = out@;
        out.push(copy_str(items[i].as_str()));
        proof {
            assert(views(out@) =~= views(b).push(items@[i as int]@));
            assert(views(items@).take(i + 1) =~= views(items@).take(i as int).push(items@[i as int]@));
        }
        i = i + 1;
    }
    proof {
        assert(views(items@).take(items@.len() as int) =~= views(items@));
    }
}

/// The pull stage's arguments: `pull`, the manifest datasets on a first
/// pull (nothing cloned yet), then the govbot directory.
pub fn pull_args(datasets: &Vec<String>, has_repos: bool, govbot_dir: Option<&str>) -> (r: Vec<
    String,
>)
    ensures
        views(r@) == seq!["pull"@] + (if has_repos {
            Seq::empty()
        } else {
            views(datasets@)
        }) + govbot_dir_args(opt_str_view(govbot_dir)),
{
    let mut out: Vec<String> = Vec::new();
    out.push(copy_str("pull"));
    proof {
        assert(views(out@) =~= seq!["pull"@]);
    }
    if !has_repos {
        push_all(&mut out, datasets);
    } else {
        proof {
            assert(views(out@) =~= seq!["pull"@] + Seq::<Seq<char>>::empty());
        }
    }
    push_govbot_dir(&mut out, govbot_dir);
    out
}

/// The source stage's arguments: `source --select docs`, the govbot
/// directory, then `--repos <list>` when the list is not empty.
pub fn source_stage_args(govbot_dir: Option<&str>, source_repos: &Vec<String>) -> (r: Vec<String>)
    ensures
        views(r@) == seq!["source"@, "--select"@, "docs"@] + govbot_dir_args(
            opt_str_view(govbot_dir),
        ) + (if source_repos@.len() > 0 {
            seq!["--repos"@] + views(source_repos@)
        } else {
            Seq::empty()
        }),
{
    let mut out: Vec<String> = Vec::new();
    out.push(copy_str("source"));
    out.push(copy_str("--select"));
    out.push(copy_str("docs"));
    proof {
        assert(views(out@) =~= seq!["source"@, "--select"@, "docs"@]);
    }
    push_govbot_dir(&mut out, govbot_dir);
    let ghost mid = views(out@);
    if source_repos.len() > 0 {
        out.push(copy_str("--repos"));
        proof {
            assert(views(out@) =~= mid + seq!["--repos"@]);
        }
        push_all(&mut out, source_repos);
        proof {
            assert(views(out@) =~= mid + (seq!["--repos"@] + views(source_repos@)));
        }
    } else {
        proof {
            assert(views(out@) =~= mid + Seq::<Seq<char>>::empty());
        }
    }
    out
}

/// The publish stage's arguments: `publish`, the govbot directory, then
/// `--dry-run` when asked for.
pub fn publish_stage_args(govbot_dir: Option<&str>, dry_run: bool) -> (r: Vec<String>)
    ensures
        views(r@) == seq!["publish"@] + govbot_dir_args(opt_str_view(govbot_dir)) + (if dry_run {
            seq!["--dry-run"@]
        } else {
            Seq::empty()
        }),
{
    let mut out: Vec<String> = Vec::new();
    out.push(copy_str("publish"));
    proof {
        assert(views(out@) =~= seq!["publish"@]);
    }
    push_govbot_dir(&mut out, govbot_dir);
    let ghost mid = views(out@);
    if dry_run {
        out.push(copy_str("--dry-run"));
        proof {
            assert(views(out@) =~= mid + seq!["--dry-run"@]);
        }
    } else {
        proof {
            assert(views(out@) =~= mid + Seq::<Seq<char>>::empty());
        }
    }
    out
}

/// The govbot directory the record stream is read from, passed on unless it
/// is empty or the default `.govbot`.
pub open spec fn explicit_govbot_dir(d: Seq<char>) -> Option<Seq<char>> {
    if d.len() == 0 || d == ".govbot"@ {
        None
    } else {
        Some(d)
    }
}

/// The `source` invocation that collects the records `publish` works on:
/// bills and tags joined, the default projection and filter, newest first,
/// then the govbot directory (see `explicit_govbot_dir`) and the datasets
/// when there are any.
pub fn publish_source_args(govbot_dir: &str, repos: &Vec<String>) -> (r: Vec<String>)
    ensures
        views(r@) == seq![
            "source"@,
            "--join"@,
            "bill,tags"@,
            "--select"@,
            "default"@,
            "--filter"@,
            "default"@,
            "--sort"@,
            "DESC"@,
        ] + govbot_dir_args(explicit_govbot_dir(govbot_dir@)) + (if repos@.len() > 0 {
            seq!["--repos"@] + views(repos@)
        } else {
            Seq::empty()
        }),
{
    let mut out: Vec<String> = Vec::new();
    out.push(copy_str("source"));
    out.push(copy_str("--join"));
    out.push(copy_str("bill,tags"));
    out.push(copy_str("--select"));
    out.push(copy_str("default"));
    out.push(copy_str("--filter"));
    out.push(copy_str("default"));
    out.push(copy_str("--sort"));
    out.push(copy_str("DESC"));
    let ghost head = views(out@);
    proof {
        assert(head =~= seq![
            "source"@,
            "--join"@,
            "bill,tags"@,
            "--select"@,
            "default"@,
            "--filter"@,
            "default"@,
            "--sort"@,
            "DESC"@,
        ]);
    }
    let explicit = if govbot_dir.unicode_len() == 0 || str_eq(govbot_dir, ".govbot") {
        None
    } else {
        Some(govbot_dir)
    };
    proof {
        assert(opt_str_view(explicit) == explicit_govbot_dir(govbot_dir@));
    }
    push_govbot_dir(&mut out, explicit);
    let ghost mid = views(out@);
    if repos.len() > 0 {
        out.push(copy_str("--repos"));
        proof {
            assert(views(out@) =~= mid + seq!["--repos"@]);
        }
        push_all(&mut out, repos);
        proof {
            assert(views(out@) =~= mid + (seq!["--repos"@] + views(repos@)));
        }
    } else {
        proof {
            assert(views(out@) =~= mid + Seq::<Seq<char>>::empty());
        }
    }
    out
}

} // verus!
