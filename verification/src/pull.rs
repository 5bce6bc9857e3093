//! `pull`: which datasets are synced, what each sync reports, and the
//! closing summary.
use vstd::prelude::*;
use crate::error::Error;
use crate::gitops::PullOutcome;
use crate::lock::DatasetPin;
use crate::num::{decimal, usize_to_string};
use crate::registry::{Registry, ResolvedDataset, ResolvedView, copy_opt, resolve_spec, resolved_views};
use crate::repos::{pad, pad_right};
use crate::route::opt_view;
use crate::text::{after_last, copy_str, str_eq, views};
use crate::wizard::TextBuilder;

verus! {

/// What syncing one dataset reported.
pub struct CloneResult {
    /// The dataset's short name.
    pub locale: String,
    /// The action's emoji, or `failed`.
    pub result: String,
    /// `<n>/<total>`.
    pub position: String,
    /// The size after a clone or a pull without updates.
    pub size: Option<String>,
    /// The size before a pull with updates.
    pub local_size: Option<String>,
    /// The size after a pull with updates.
    pub final_size: Option<String>,
    /// The error of a failed sync.
    pub error: Option<String>,
    /// What a successful sync pins into the lockfile.
    pub pin: Option<DatasetPin>,
}

/// The emoji reported for a sync action.
pub open spec fn action_emoji_of(action: Seq<char>) -> Seq<char> {
    if action == "clone"@ {
        "\u{1f195}"@
    } else if action == "pulled"@ {
        "\u{2b07}\u{fe0f}"@
    } else if action == "no_updates"@ {
        "\u{2705}"@
    } else if action == "recloned"@ {
        "\u{1f504}"@
    } else {
        "processed"@
    }
}

pub fn action_emoji(action: &str) -> (r: String)
    ensures
        r@ == action_emoji_of(action@),
{
    if str_eq(action, "clone") {
        copy_str("\u{1f195}")
    } else if str_eq(action, "pulled") {
        copy_str("\u{2b07}\u{fe0f}")
    } else if str_eq(action, "no_updates") {
        copy_str("\u{2705}")
    } else if str_eq(action, "recloned") {
        copy_str("\u{1f504}")
    } else {
        copy_str("processed")
    }
}

/// Whether an action reports one size (a clone, a re-clone, a pull without
/// updates) rather than a before and an after.
pub open spec fn single_size(action: Seq<char>) -> bool {
    action == "clone"@ || action == "recloned"@ || action == "no_updates"@
}

/// The report of one dataset's sync: on success the action's emoji, the
/// sizes (formatted by the caller, measured before and after) and the pin;
/// on failure `failed` and the error.
pub fn process_single_dataset(
    dataset: &ResolvedDataset,
    outcome: Result<PullOutcome, Error>,
    local_size: &str,
    final_size: &str,
) -> (r: CloneResult)
    ensures
        r.locale@ == after_last(dataset.id@, "/"@),
        r.position@ == Seq::<char>::empty(),
        match outcome {
            Ok(o) => {
                &&& r.result@ == action_emoji_of(o.action@)
                &&& r.error is None
                &&& r.pin matches Some(p) && p.canonical_id@ == dataset.id@ && p.git_url@
                    == dataset.entry.git_url@ && opt_view(p.channel) == opt_view(dataset.channel)
                    && p.commit@ == o.commit@ && p.cache_key@ == o.cache_key@
                &&& single_size(o.action@) ==> opt_view(r.size) == Some(final_size@)
                    && r.local_size is None && r.final_size is None
                &&& !single_size(o.action@) ==> r.size is None && opt_view(r.local_size) == Some(
                    local_size@,
                ) && opt_view(r.final_size) == Some(final_size@)
            },
            Err(Error::Config(m)) => {
                &&& r.result@ == "failed"@
                &&& opt_view(r.error) == Some(m@)
                &&& r.pin is None
                &&& r.size is None && r.local_size is None && r.final_size is None
            },
        },
{
    let short = dataset.short_name();
    match outcome {
        Ok(o) => {
            let result = action_emoji(o.action);
            let single = str_eq(o.action, "clone") || str_eq(o.action, "recloned") || str_eq(
                o.action,
                "no_updates",
            );
            let pin = DatasetPin {
                canonical_id: copy_str(dataset.id.as_str()),
                git_url: copy_str(dataset.entry.git_url.as_str()),
                channel: copy_opt(&dataset.channel),
                commit: o.commit,
                cache_key: o.cache_key,
            };
            if single {
                CloneResult {
                    locale: short,
                    result,
                    position: String::new(),
                    size: Some(copy_str(final_size)),
                    local_size: None,
                    final_size: None,
                    error: None,
                    pin: Some(pin),
                }
            } else {
                CloneResult {
                    locale: short,
                    result,
                    position: String::new(),
                    size: None,
                    local_size: Some(copy_str(local_size)),
                    final_size: Some(copy_str(final_size)),
                    error: None,
                    pin: Some(pin),
                }
            }
        },
        Err(Error::Config(m)) => CloneResult {
            locale: short,
            result: copy_str("failed"),
            position: String::new(),
            size: None,
            local_size: None,
            final_size: None,
            error: Some(m),
            pin: None,
        },
    }
}

/// `<n>/<total>`.
pub fn position(n: usize, total: usize) -> (r: String)
    ensures
        r@ == decimal(n as nat) + "/"@ + decimal(total as nat),
{
    let a = usize_to_string(n);
    let b = usize_to_string(total);
    let mut t = TextBuilder::new();
    t.add(a.as_str());
    t.add("/");
    t.add(b.as_str());
    t.text
}

/// The size part of a successful sync's line: the single size, else
/// `<before> -> <after>`, else nothing.
pub open spec fn size_text(r: CloneResult) -> Seq<char> {
    match r.size {
        Some(s) => s@,
        None => match (r.local_size, r.final_size) {
            (Some(l), Some(f)) => l@ + " -> "@ + f@,
            _ => Seq::empty(),
        },
    }
}

/// The line printed for one sync.
pub open spec fn result_line_of(r: CloneResult) -> Seq<char> {
    if r.result@ == "failed"@ {
        match r.error {
            Some(e) => "\u{274c}  "@ + pad_right(r.locale@, 6) + "  "@ + e@,
            None => "\u{274c}  "@ + pad_right(r.locale@, 6),
        }
    } else if size_text(r).len() > 0 {
        r.result@ + "  "@ + pad_right(r.locale@, 6) + "  ["@ + size_text(r) + "]"@
    } else {
        r.result@ + "  "@ + pad_right(r.locale@, 6)
    }
}

pub fn result_line(r: &CloneResult) -> (s: String)
    ensures
        s@ == result_line_of(*r),
{
    let loc = pad(r.locale.as_str(), 6);
    let mut t = TextBuilder::new();
    if str_eq(r.result.as_str(), "failed") {
        t.add("\u{274c}  ");
        t.add(loc.as_str());
        match &r.error {
            Some(e) => {
                t.add("  ");
                t.add(e.as_str());
            },
            None => {},
        }
    } else {
        let mut size = TextBuilder::new();
        match &r.size {
            Some(s) => size.add(s.as_str()),
            None => match (&r.local_size, &r.final_size) {
                (Some(l), Some(f)) => {
                    size.add(l.as_str());
                    size.add(" -> ");
                    size.add(f.as_str());
                },
                _ => {},
            },
        }
        proof {
            assert(size.text@ =~= size_text(*r));
        }
        t.add(r.result.as_str());
        t.add("  ");
        t.add(loc.as_str());
        if size.text.unicode_len() > 0 {
            t.add("  [");
            t.add(size.text.as_str());
            t.add("]");
        }
    }
    proof {
        assert(t.text@ =~= result_line_of(*r));
    }
    t.text
}

/// How many syncs failed.
pub open spec fn failures(results: Seq<CloneResult>) -> nat
    decreases results.len(),
{
    if results.len() == 0 {
        0
    } else {
        failures(results.drop_last()) + if results.last().result@ == "failed"@ {
            1nat
        } else {
            0nat
        }
    }
}

/// The closing line of a pull, when there is one.
pub open spec fn pull_summary_of(failed: nat, total: nat) -> Option<Seq<char>> {
    if failed > 0 {
        Some("\n\u{274c} Errors occurred: "@ + decimal(failed) + "/"@ + decimal(total))
    } else if total > 0 {
        Some("\n\u{2705} Successfully processed all "@ + decimal(total) + " datasets!"@)
    } else {
        None
    }
}

pub fn pull_summary(results: &Vec<CloneResult>) -> (r: Option<String>)
    ensures
        opt_view(r) == pull_summary_of(failures(results@), results.len() as nat),
{
    let mut failed: usize = 0;
    let mut i: usize = 0;
    while i < results.len()
        invariant
            i <= results.len(),
            failed == failures(results@.take(i as int)),
            failed <= i,
        decreases results.len() - i,
    {
        proof {
            assert(results@.take(i + 1).drop_last() =~= results@.take(i as int));
        }
        if str_eq(results[i].result.as_str(), "failed") {
            failed = failed + 1;
        }
        i = i + 1;
    }
    proof {
        assert(results@.take(results@.len() as int) =~= results@);
    }
    if failed > 0 {
        let f = usize_to_string(failed);
        let n = usize_to_string(results.len());
        let mut t = TextBuilder::new();
        t.add("\n\u{274c} Errors occurred: ");
        t.add(f.as_str());
        t.add("/");
        t.add(n.as_str());
        Some(t.text)
    } else if results.len() > 0 {
        let n = usize_to_string(results.len());
        let mut t = TextBuilder::new();
        t.add("\n\u{2705} Successfully processed all ");
        t.add(n.as_str());
        t.add(" datasets!");
        Some(t.text)
    } else {
        None
    }
}

/// The datasets that `local` resolves to, in order, skipping those the
/// registry does not know.
pub open spec fn resolved_of(
    ns: Seq<char>,
    c: Seq<(Seq<char>, crate::registry::DatasetEntry)>,
    local: Seq<Seq<char>>,
) -> Seq<ResolvedView>
    decreases local.len(),
{
    if local.len() == 0 {
        Seq::empty()
    } else {
        let rest = resolved_of(ns, c, local.drop_last());
        match resolve_spec(ns, c, local.last()) {
            Ok(v) => rest.push(v),
            Err(_) => rest,
        }
    }
}

/// The identifiers of `local` the registry does not know, in order.
pub open spec fn unknown_of(
    ns: Seq<char>,
    c: Seq<(Seq<char>, crate::registry::DatasetEntry)>,
    local: Seq<Seq<char>>,
) -> Seq<Seq<char>>
    decreases local.len(),
{
    if local.len() == 0 {
        Seq::empty()
    } else {
        let rest = unknown_of(ns, c, local.drop_last());
        match resolve_spec(ns, c, local.last()) {
            Ok(_) => rest,
            Err(_) => rest.push(local.last()),
        }
    }
}

/// The locally present datasets that still resolve in the registry, in
/// order, and those that do not (skipped with a warning).
pub fn resolve_local(registry: &Registry, local: &Vec<String>) -> (r: (
    Vec<ResolvedDataset>,
    Vec<String>,
))
    ensures
        resolved_views(r.0@) == resolved_of(
            registry.default_namespace@,
            registry.contents(),
            views(local@),
        ),
        views(r.1@) == unknown_of(registry.default_namespace@, registry.contents(), views(local@)),
{
    let ghost ns = registry.default_namespace@;
    let ghost c = registry.contents();
    let ghost lv = views(local@);
    let mut ok: Vec<ResolvedDataset> = Vec::new();
    let mut skipped: Vec<String> = Vec::new();
    let mut i: usize = 0;
    proof {
        assert(lv.take(0) =~= Seq::<Seq<char>>::empty());
        assert(resolved_views(ok@) =~= Seq::<ResolvedView>::empty());
        assert(views(skipped@) =~= Seq::<Seq<char>>::empty());
    }
    while i < local.len()
        invariant
            i <= local.len(),
            ns == registry.default_namespace@,
            c == registry.contents(),
            lv == views(local@),
            resolved_views(ok@) == resolved_of(ns, c, lv.take(i as int)),
            views(skipped@) == unknown_of(ns, c, lv.take(i as int)),
        decreases local.len() - i,
    {
        proof {
            assert(lv.take(i + 1).drop_last() =~= lv.take(i as int));
            assert(lv.take(i + 1).last() == local@[i as int]@);
        }
        match registry.resolve(local[i].as_str()) {
            Ok(d) => {
                let ghost before = resolved_views(ok@);
                ok.push(d);
                proof {
                    assert(resolved_views(ok@) =~= before.push(ok@[ok@.len() - 1]@));
                }
            },
            Err(_) => {
                let ghost before = views(skipped@);
                skipped.push(copy_str(local[i].as_str()));
                proof {
                    assert(views(skipped@) =~= before.push(local@[i as int]@));
                }
            },
        }
        i = i + 1;
    }
    proof {
        assert(lv.take(local@.len() as int) =~= lv);
    }
    (ok, skipped)
}

} // verus!
