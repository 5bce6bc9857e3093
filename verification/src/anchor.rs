//! Where tag files are looked for: the session directory a log lives
//! under, the project-rooted `tags/<dataset>/...` directory that mirrors
//! it, and the tag name a `.tag.json` file carries.
use vstd::prelude::*;
use crate::route::{extract_path_info, opt_view, segment_after};
use crate::text::{
    concat2, concat3, copy_str, ends_with_str, is_prefix, is_suffix, rfind, rfind_exec, chars_of,
    starts_with_str, str_eq, string_from, strip_suffix_str, lemma_rfind_props, views,
};

verus! {

// ------------------------------------------------------------------
// Paths
// ------------------------------------------------------------------

/// `Path::join` for `/`-separated paths: an absolute `b` replaces `a`;
/// otherwise `b` is appended after a separator.
pub open spec fn path_join(a: Seq<char>, b: Seq<char>) -> Seq<char> {
    if b.len() > 0 && b[0] == '/' {
        b
    } else if a.len() == 0 {
        b
    } else if a.last() == '/' {
        a + b
    } else {
        a + "/"@ + b
    }
}

pub fn join_path(a: &str, b: &str) -> (r: String)
    ensures
        r@ == path_join(a@, b@),
{
    proof {
        reveal_strlit("/");
    }
    if starts_with_str(b, "/") {
        proof {
            assert(b@.take(1)[0] == b@[0]);
        }
        return copy_str(b);
    }
    proof {
        if b@.len() > 0 && b@[0] == '/' {
            assert(b@.take(1) =~= "/"@);
        }
    }
    if a.unicode_len() == 0 {
        copy_str(b)
    } else if ends_with_str(a, "/") {
        proof {
            assert(a@.skip(a@.len() - 1)[0] == a@.last());
        }
        concat2(a, b)
    } else {
        proof {
            if a@.last() == '/' {
                assert(a@.skip(a@.len() - 1) =~= "/"@);
            }
        }
        concat3(a, "/", b)
    }
}

// ------------------------------------------------------------------
// The session anchor
// ------------------------------------------------------------------

/// A session directory and the segments that place it in its dataset.
pub struct SessionAnchor {
    /// The session directory (the `bills/`-bearing ancestor of a log).
    pub session_dir: String,
    /// The last plain segment before the first `country:` segment.
    pub dataset: Option<String>,
    /// The `country:<c>` segment as it is.
    pub country_segment: String,
    /// The `state:<s>` segment as it is.
    pub state_segment: String,
    /// The segment after `sessions`.
    pub session_id: String,
}

/// What the scan of a session directory's components has found.
pub struct AnchorScan {
    pub country: Option<Seq<char>>,
    pub state: Option<Seq<char>>,
    pub session: Option<Seq<char>>,
    pub dataset: Option<Seq<char>>,
    pub prev_was_sessions: bool,
    pub country_seen: bool,
}

/// A segment that can name the dataset: not empty, not the root, not a
/// `country:`/`state:` segment, not `sessions` or `bills`.
pub open spec fn plain_segment(seg: Seq<char>) -> bool {
    seg.len() > 0 && seg != "/"@ && !is_prefix("country:"@, seg) && !is_prefix("state:"@, seg)
        && seg != "sessions"@ && seg != "bills"@
}

/// One component scanned: `country:`/`state:` segments are recorded, the
/// segment after `sessions` is the session id, and, until a `country:`
/// segment has been seen, each plain segment is the dataset.
pub open spec fn anchor_step(a: AnchorScan, seg: Seq<char>) -> AnchorScan {
    if seg == "sessions"@ && !is_prefix("country:"@, seg) && !is_prefix("state:"@, seg) {
        AnchorScan { prev_was_sessions: true, ..a }
    } else {
        let country = if is_prefix("country:"@, seg) {
            Some(seg)
        } else {
            a.country
        };
        let seen = a.country_seen || is_prefix("country:"@, seg);
        let state = if !is_prefix("country:"@, seg) && is_prefix("state:"@, seg) {
            Some(seg)
        } else {
            a.state
        };
        let session = if !is_prefix("country:"@, seg) && !is_prefix("state:"@, seg)
            && a.prev_was_sessions {
            Some(seg)
        } else {
            a.session
        };
        let dataset = if !seen && plain_segment(seg) {
            Some(seg)
        } else {
            a.dataset
        };
        AnchorScan {
            country,
            state,
            session,
            dataset,
            prev_was_sessions: false,
            country_seen: seen,
        }
    }
}

pub open spec fn anchor_scan(segs: Seq<Seq<char>>) -> AnchorScan
    decreases segs.len(),
{
    if segs.len() == 0 {
        AnchorScan {
            country: None,
            state: None,
            session: None,
            dataset: None,
            prev_was_sessions: false,
            country_seen: false,
        }
    } else {
        anchor_step(anchor_scan(segs.drop_last()), segs.last())
    }
}

pub struct SessionAnchorView {
    pub session_dir: Seq<char>,
    pub dataset: Option<Seq<char>>,
    pub country_segment: Seq<char>,
    pub state_segment: Seq<char>,
    pub session_id: Seq<char>,
}

impl View for SessionAnchor {
    type V = SessionAnchorView;

    open spec fn view(&self) -> SessionAnchorView {
        SessionAnchorView {
            session_dir: self.session_dir@,
            dataset: opt_view(self.dataset),
            country_segment: self.country_segment@,
            state_segment: self.state_segment@,
            session_id: self.session_id@,
        }
    }
}

/// The anchor of a session directory given by its path and components:
/// present when the components hold a `country:`, a `state:` and a
/// session segment.
pub open spec fn session_anchor_of(dir: Seq<char>, segs: Seq<Seq<char>>) -> Option<
    SessionAnchorView,
> {
    let a = anchor_scan(segs);
    match (a.country, a.state, a.session) {
        (Some(c), Some(s), Some(se)) => Some(
            SessionAnchorView {
                session_dir: dir,
                dataset: a.dataset,
                country_segment: c,
                state_segment: s,
                session_id: se,
            },
        ),
        _ => None,
    }
}

/// Build the anchor of a session directory from its path and its
/// components (the directory itself is found on disk: the nearest ancestor
/// of a log that has a `bills/` child).
pub fn parse_session_anchor(session_dir: &str, components: &Vec<String>) -> (r: Option<
    SessionAnchor,
>)
    ensures
        match r {
            Some(a) => session_anchor_of(session_dir@, views(components@)) == Some(a@),
            None => session_anchor_of(session_dir@, views(components@)) is None,
        },
{
    let mut country: Option<String> = None;
    let mut state: Option<String> = None;
    let mut session: Option<String> = None;
    let mut dataset: Option<String> = None;
    let mut prev_was_sessions = false;
    let mut country_seen = false;
    let ghost cv = views(components@);
    let mut i: usize = 0;
    proof {
        assert(cv.take(0) =~= Seq::<Seq<char>>::empty());
    }
    while i < components.len()
        invariant
            i <= components.len(),
            cv == views(components@),
            anchor_scan(cv.take(i as int)) == (AnchorScan {
                country: opt_view(country),
                state: opt_view(state),
                session: opt_view(session),
                dataset: opt_view(dataset),
                prev_was_sessions,
                country_seen,
            }),
        decreases components.len() - i,
    {
        proof {
            let next = cv.take(i + 1);
            assert(next.drop_last() =~= cv.take(i as int));
            assert(next.last() == components@[i as int]@);
        }
        let seg = components[i].as_str();
        let is_country = starts_with_str(seg, "country:");
        let is_state = starts_with_str(seg, "state:");
        if is_country {
            country = Some(copy_str(seg));
            country_seen = true;
        } else if is_state {
            state = Some(copy_str(seg));
        } else if str_eq(seg, "sessions") {
            prev_was_sessions = true;
            i = i + 1;
            continue;
        } else if prev_was_sessions {
            session = Some(copy_str(seg));
        }
        if !country_seen && seg.unicode_len() > 0 && !str_eq(seg, "/") && !is_country && !is_state
            && !str_eq(seg, "sessions") && !str_eq(seg, "bills") {
            dataset = Some(copy_str(seg));
        }
        prev_was_sessions = false;
        i = i + 1;
    }
    proof {
        assert(cv.take(cv.len() as int) =~= cv);
    }
    match (country, state, session) {
        (Some(c), Some(s), Some(se)) => Some(
            SessionAnchor {
                session_dir: copy_str(session_dir),
                dataset,
                country_segment: c,
                state_segment: s,
                session_id: se,
            },
        ),
        _ => None,
    }
}

/// The primary tag directory of an anchor:
/// `<project>/tags/<dataset>/<country>/<state>/sessions/<id>`.
pub open spec fn project_tags_dir(project: Seq<char>, a: SessionAnchorView, dataset: Seq<char>) -> Seq<
    char,
> {
    path_join(
        path_join(
            path_join(
                path_join(path_join(path_join(project, "tags"@), dataset), a.country_segment),
                a.state_segment,
            ),
            "sessions"@,
        ),
        a.session_id,
    )
}

/// Every directory a tag file is read from for a log, in the order to
/// consult them: the project-rooted `tags/<dataset>/...` directory (when
/// the dataset is known), then the session's own `tags/` directory.
pub open spec fn tags_dir_candidates(anchor: Option<SessionAnchorView>, project: Seq<char>) -> Seq<
    Seq<char>,
> {
    match anchor {
        Some(a) => (match a.dataset {
            Some(d) => seq![project_tags_dir(project, a, d)],
            None => Seq::empty(),
        }) + seq![path_join(a.session_dir, "tags"@)],
        None => Seq::empty(),
    }
}

pub open spec fn anchor_view(a: Option<SessionAnchor>) -> Option<SessionAnchorView> {
    match a {
        Some(x) => Some(x@),
        None => None,
    }
}

/// The tag directories to consult for a log's session anchor (see
/// `tags_dir_candidates`); none when the log is outside a dataset layout.
pub fn resolve_tags_dir_candidates(anchor: &Option<SessionAnchor>, project_dir: &str) -> (r: Vec<
    String,
>)
    ensures
        views(r@) == tags_dir_candidates(anchor_view(*anchor), project_dir@),
{
    let mut out: Vec<String> = Vec::new();
    match anchor {
        Some(a) => {
            match &a.dataset {
                Some(d) => {
                    let p1 = join_path(project_dir, "tags");
                    let p2 = join_path(p1.as_str(), d.as_str());
                    let p3 = join_path(p2.as_str(), a.country_segment.as_str());
                    let p4 = join_path(p3.as_str(), a.state_segment.as_str());
                    let p5 = join_path(p4.as_str(), "sessions");
                    let p6 = join_path(p5.as_str(), a.session_id.as_str());
                    out.push(p6);
                },
                None => {},
            }
            let ghost before = out@;
            out.push(join_path(a.session_dir.as_str(), "tags"));
            proof {
                assert(views(out@) =~= tags_dir_candidates(anchor_view(*anchor), project_dir@));
            }
        },
        None => {
            proof {
                assert(views(out@) =~= Seq::<Seq<char>>::empty());
            }
        },
    }
    out
}

/// The directory of the oldest tag layout:
/// `<cwd>/country:<c>/state:<s>/sessions/<id>/tags`, from a source path.
pub open spec fn legacy_tags_dir_of(cwd: Seq<char>, source_path: Seq<char>) -> Option<Seq<char>> {
    match (
        segment_after(source_path, "country:"@),
        segment_after(source_path, "/state:"@),
        segment_after(source_path, "/sessions/"@),
    ) {
        (Some(c), Some(s), Some(se)) => Some(
            path_join(
                path_join(
                    path_join(path_join(cwd, "country:"@ + c), "state:"@ + s),
                    "sessions"@,
                ),
                se,
            ) + "/tags"@,
        ),
        _ => None,
    }
}

/// The legacy tag directory for a log (see `legacy_tags_dir_of`).
pub fn legacy_tags_dir(cwd: &str, source_path: &str) -> (r: Option<String>)
    ensures
        opt_view(r) == legacy_tags_dir_of(cwd@, source_path@),
{
    let (c, s, se) = match extract_path_info(source_path) {
        Some(t) => t,
        None => return None,
    };
    let p1 = join_path(cwd, concat2("country:", c.as_str()).as_str());
    let p2 = join_path(p1.as_str(), concat2("state:", s.as_str()).as_str());
    let p3 = join_path(p2.as_str(), "sessions");
    let p4 = join_path(p3.as_str(), se.as_str());
    Some(concat2(p4.as_str(), "/tags"))
}

// ------------------------------------------------------------------
// Tag file names
// ------------------------------------------------------------------

/// `Path::file_stem` and `Path::extension` of a file name: split at the
/// last `.`, unless that dot starts the name (or the name is `..`).
pub open spec fn stem_and_extension(name: Seq<char>) -> (Seq<char>, Option<Seq<char>>) {
    if name == ".."@ {
        (name, None)
    } else {
        match rfind(name, "."@) {
            Some(i) => if i == 0 {
                (name, None)
            } else {
                (name.take(i), Some(name.skip(i + 1)))
            },
            None => (name, None),
        }
    }
}

/// The tag a file in a tag directory holds: files with the `json`
/// extension only; `budget.tag.json` and `budget.json` both hold `budget`.
pub open spec fn tag_name_of(name: Seq<char>) -> Option<Seq<char>> {
    let (stem, ext) = stem_and_extension(name);
    if ext == Some("json"@) {
        if is_suffix(".tag"@, stem) {
            Some(stem.take(stem.len() - ".tag"@.len()))
        } else {
            Some(stem)
        }
    } else {
        None
    }
}

/// The tag held by a tag directory's file (see `tag_name_of`).
pub fn tag_name_of_file(file_name: &str) -> (r: Option<String>)
    ensures
        opt_view(r) == tag_name_of(file_name@),
{
    if str_eq(file_name, "..") {
        return None;
    }
    let nv = chars_of(file_name);
    let dot = chars_of(".");
    proof {
        reveal_strlit(".");
        reveal_strlit("json");
        lemma_rfind_props(nv@, dot@);
    }
    let i = match rfind_exec(&nv, &dot) {
        Some(i) => i,
        None => return None,
    };
    if i == 0 {
        return None;
    }
    let stem = string_from(&nv, 0, i);
    let ext = string_from(&nv, i + 1, nv.len());
    proof {
        assert(nv@.subrange(0, i as int) =~= nv@.take(i as int));
        assert(nv@.subrange(i + 1, nv@.len() as int) =~= nv@.skip(i + 1));
    }
    if !str_eq(ext.as_str(), "json") {
        return None;
    }
    match strip_suffix_str(stem.as_str(), ".tag") {
        Some(t) => Some(t),
        None => Some(stem),
    }
}

} // verus!
