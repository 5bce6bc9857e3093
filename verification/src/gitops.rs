//! The decisions of cloning and pulling a dataset's git repository: which
//! branch is tracked, what a merge analysis leads to, which pull failures
//! are repaired by a fresh clone, and what each outcome is called.
use vstd::prelude::*;
use crate::error::Error;
use crate::tagfile::{hash_text, sha256_hex};
use crate::text::{
    chars_of, concat2, concat3, contains, contains_str, copy_str, is_prefix, str_eq, string_from,
    strip_prefix_str,
};

verus! {

/// The outcome of a clone or pull, and the commit it landed on.
pub struct PullOutcome {
    /// `"clone"`, `"pulled"`, `"no_updates"` or `"recloned"`.
    pub action: &'static str,
    /// The commit the dataset is now checked out at.
    pub commit: String,
    /// The shared-cache key the dataset's clone lives under.
    pub cache_key: String,
}

/// `refs/heads/<branch>`.
pub open spec fn head_ref_of(branch: Seq<char>) -> Seq<char> {
    "refs/heads/"@ + branch
}

pub fn head_ref(branch: &str) -> (r: String)
    ensures
        r@ == head_ref_of(branch@),
{
    concat2("refs/heads/", branch)
}

/// The local branch `HEAD` names: its reference without `refs/heads/`.
pub fn local_branch_name(head: Option<&str>) -> (r: Result<String, Error>)
    ensures
        match head {
            Some(h) if is_prefix("refs/heads/"@, h@) => r matches Ok(b) && h@ == head_ref_of(b@),
            _ => r matches Err(Error::Config(m)) && m@ == "Failed to determine local branch name"@,
        },
{
    let failed = Err(Error::Config(copy_str("Failed to determine local branch name")));
    match head {
        Some(h) => match strip_prefix_str(h, "refs/heads/") {
            Some(b) => {
                proof {
                    assert(h@ =~= "refs/heads/"@ + b@);
                }
                Ok(b)
            },
            None => failed,
        },
        None => failed,
    }
}

/// The refspecs fetched for a pull: the current branch, then `main` and
/// `master`, each into `refs/remotes/origin/`.
pub open spec fn fetch_refspecs_of(branch: Seq<char>) -> Seq<Seq<char>> {
    seq![
        "refs/heads/"@ + branch + ":refs/remotes/origin/"@ + branch,
        "refs/heads/main:refs/remotes/origin/main"@,
        "refs/heads/master:refs/remotes/origin/master"@,
    ]
}

pub fn fetch_refspecs(branch: &str) -> (r: Vec<String>)
    ensures
        r@.map_values(|s: String| s@) == fetch_refspecs_of(branch@),
{
    let first = concat3(
        concat3("refs/heads/", branch, ":refs/remotes/origin/").as_str(),
        branch,
        "",
    );
    proof {
        reveal_strlit("");
    }
    let mut v: Vec<String> = Vec::new();
    v.push(first);
    v.push(copy_str("refs/heads/main:refs/remotes/origin/main"));
    v.push(copy_str("refs/heads/master:refs/remotes/origin/master"));
    proof {
        assert(v@.map_values(|s: String| s@) =~= fetch_refspecs_of(branch@));
    }
    v
}

/// A failed fetch is fatal only when the tracked branch is not there
/// either.
pub fn check_fetch(fetch_failed: bool, has_tracked_branch: bool) -> (r: Result<(), Error>)
    ensures
        r is Ok <==> (!fetch_failed || has_tracked_branch),
        r matches Err(Error::Config(m)) ==> m@
            == "Failed to fetch from remote and the tracked branch was not found"@,
{
    if fetch_failed && !has_tracked_branch {
        Err(
            Error::Config(
                copy_str("Failed to fetch from remote and the tracked branch was not found"),
            ),
        )
    } else {
        Ok(())
    }
}

/// The branch a pull follows: the remote branch, the local branch to be on,
/// and whether HEAD has to move to it.
pub struct TrackedBranch {
    pub remote: String,
    pub local: String,
    pub switch: bool,
}

/// The branch a pull follows: `origin/<current>` when it exists, else
/// `origin/main`, else `origin/master`.
pub fn tracked_branch(
    current: &str,
    has_origin_current: bool,
    has_origin_main: bool,
    has_origin_master: bool,
) -> (r: Result<TrackedBranch, Error>)
    ensures
        has_origin_current ==> (r matches Ok(t) && t.remote@ == "origin/"@ + current@ && t.local@
            == current@ && !t.switch),
        !has_origin_current && has_origin_main ==> (r matches Ok(t) && t.remote@
            == "origin/main"@ && t.local@ == "main"@ && t.switch == (current@ != "main"@)),
        !has_origin_current && !has_origin_main && has_origin_master ==> (r matches Ok(t)
            && t.remote@ == "origin/master"@ && t.local@ == "master"@ && t.switch == (current@
            != "master"@)),
        !has_origin_current && !has_origin_main && !has_origin_master ==> (r matches Err(
            Error::Config(m),
        ) && m@ == "No tracked branch found in remote repository"@),
{
    if has_origin_current {
        Ok(
            TrackedBranch {
                remote: concat2("origin/", current),
                local: copy_str(current),
                switch: false,
            },
        )
    } else if has_origin_main {
        Ok(
            TrackedBranch {
                remote: copy_str("origin/main"),
                local: copy_str("main"),
                switch: !str_eq(current, "main"),
            },
        )
    } else if has_origin_master {
        Ok(
            TrackedBranch {
                remote: copy_str("origin/master"),
                local: copy_str("master"),
                switch: !str_eq(current, "master"),
            },
        )
    } else {
        Err(Error::Config(copy_str("No tracked branch found in remote repository")))
    }
}

/// What the merge analysis leads to: nothing new (`false`), a fast-forward
/// (`true`), or an error for a diverged branch.
pub fn merge_step(up_to_date: bool, fast_forward: bool) -> (r: Result<bool, Error>)
    ensures
        up_to_date ==> r == Ok::<bool, Error>(false),
        !up_to_date && fast_forward ==> r == Ok::<bool, Error>(true),
        !up_to_date && !fast_forward ==> (r matches Err(Error::Config(m)) && m@
            == "Repository has diverged and cannot be fast-forwarded. Please resolve manually."@),
{
    if up_to_date {
        Ok(false)
    } else if fast_forward {
        Ok(true)
    } else {
        Err(
            Error::Config(
                copy_str(
                    "Repository has diverged and cannot be fast-forwarded. Please resolve manually.",
                ),
            ),
        )
    }
}

/// The default branch of a fresh clone, and the remote branch it is made
/// from when it has no local branch yet.
pub struct DefaultBranch {
    pub name: &'static str,
    pub from_remote: Option<&'static str>,
}

/// `main` if present locally, else `master`; failing both, a local branch
/// is made from `origin/main`, else from `origin/master`.
pub fn default_branch(
    has_main: bool,
    has_master: bool,
    has_origin_main: bool,
    has_origin_master: bool,
) -> (r: Result<DefaultBranch, Error>)
    ensures
        has_main ==> (r matches Ok(d) && d.name@ == "main"@ && d.from_remote is None),
        !has_main && has_master ==> (r matches Ok(d) && d.name@ == "master"@
            && d.from_remote is None),
        !has_main && !has_master && has_origin_main ==> (r matches Ok(d) && d.name@ == "main"@
            && d.from_remote == Some("origin/main")),
        !has_main && !has_master && !has_origin_main && has_origin_master ==> (r matches Ok(d)
            && d.name@ == "master"@ && d.from_remote == Some("origin/master")),
        !has_main && !has_master && !has_origin_main && !has_origin_master ==> (r matches Err(
            Error::Config(m),
        ) && m@ == "Neither 'main' nor 'master' branch found in repository"@),
{
    if has_main {
        Ok(DefaultBranch { name: "main", from_remote: None })
    } else if has_master {
        Ok(DefaultBranch { name: "master", from_remote: None })
    } else if has_origin_main {
        Ok(DefaultBranch { name: "main", from_remote: Some("origin/main") })
    } else if has_origin_master {
        Ok(DefaultBranch { name: "master", from_remote: Some("origin/master") })
    } else {
        Err(Error::Config(copy_str("Neither 'main' nor 'master' branch found in repository")))
    }
}

/// HEAD has to be set unless it already names `refs/heads/<branch>`.
pub fn head_needs_set(head: Option<&str>, branch: &str) -> (b: bool)
    ensures
        b == match head {
            Some(h) => h@ != head_ref_of(branch@),
            None => true,
        },
{
    match head {
        Some(h) => {
            let want = head_ref(branch);
            !str_eq(h, want.as_str())
        },
        None => true,
    }
}

/// A pull failure that a fresh clone repairs: a failed merge analysis or a
/// missing object (a corrupt or too-shallow cache entry).
pub open spec fn recoverable(message: Seq<char>) -> bool {
    contains(message, "Failed to analyze merge"@) || contains(message, "object not found"@)
}

pub fn is_recoverable_pull_error(message: &str) -> (b: bool)
    ensures
        b == recoverable(message@),
{
    contains_str(message, "Failed to analyze merge") || contains_str(message, "object not found")
}

/// The action of a pull of a cached dataset.
pub fn pull_action(had_updates: bool) -> (r: &'static str)
    ensures
        r@ == (if had_updates {
            "pulled"@
        } else {
            "no_updates"@
        }),
{
    if had_updates {
        "pulled"
    } else {
        "no_updates"
    }
}

/// The action of a clone: a fresh one, or one that replaced a corrupt
/// cache entry.
pub fn clone_action(recloned: bool) -> (r: &'static str)
    ensures
        r@ == (if recloned {
            "recloned"@
        } else {
            "clone"@
        }),
{
    if recloned {
        "recloned"
    } else {
        "clone"
    }
}

// ------------------------------------------------------------------
// The shared cache
// ------------------------------------------------------------------

/// The cache directory name of a dataset: its linked directory name
/// (`<short><suffix>`), `-`, and the first 12 hex digits of the SHA-256 of
/// `<git_url>@<channel>` (an empty channel when none is pinned), so one
/// clone serves every project that uses the same source and channel.
pub open spec fn cache_key_of(
    short: Seq<char>,
    suffix: Seq<char>,
    git_url: Seq<char>,
    channel: Option<Seq<char>>,
) -> Seq<char> {
    short + suffix + "-"@ + sha256_hex(
        git_url + "@"@ + match channel {
            Some(c) => c,
            None => Seq::empty(),
        },
    ).take(12)
}

/// The cache directory name of a dataset (see `cache_key_of`).
pub fn cache_key(short: &str, suffix: &str, git_url: &str, channel: Option<&str>) -> (r: String)
    ensures
        r@ == cache_key_of(
            short@,
            suffix@,
            git_url@,
            match channel {
                Some(c) => Some(c@),
                None => None,
            },
        ),
{
    let c = match channel {
        Some(c) => copy_str(c),
        None => String::new(),
    };
    let keyed = concat3(git_url, "@", c.as_str());
    let digest = hash_text(keyed.as_str());
    let dv = chars_of(digest.as_str());
    let head = string_from(&dv, 0, 12);
    proof {
        assert(dv@.subrange(0, 12) =~= dv@.take(12));
    }
    let name = concat2(short, suffix);
    concat3(name.as_str(), "-", head.as_str())
}

} // verus!
