//! Dataset paths: the `<dataset>/country:<c>/state:<s>/sessions/<id>/bills/<bill>`
//! layout that links a stream document back to the bill it came from.
use vstd::prelude::*;
use crate::text::{
    free_of, join, lemma_split_join,
    before_first, before_first_str, chars_of, copy_str, ends_with_str, find, find_exec, is_prefix,
    is_suffix, lemma_find_props, lemma_rfind_props, lemma_split_nonempty, rfind, rfind_exec, split,
    split_str, str_eq, string_from, strip_prefix_str, strip_suffix_str, views,
};

verus! {

/// A bill's location in the dataset, parsed from a document id.
pub struct BillRoute {
    /// The segments in front of `country:<c>`, joined with `/`; `None` when
    /// there are none.
    pub dataset: Option<String>,
    pub country: String,
    pub state: String,
    pub session: String,
    pub bill_id: String,
}

pub struct BillRouteView {
    pub dataset: Option<Seq<char>>,
    pub country: Seq<char>,
    pub state: Seq<char>,
    pub session: Seq<char>,
    pub bill_id: Seq<char>,
}

pub open spec fn opt_view(o: Option<String>) -> Option<Seq<char>> {
    match o {
        Some(s) => Some(s@),
        None => None,
    }
}

impl View for BillRoute {
    type V = BillRouteView;

    open spec fn view(&self) -> BillRouteView {
        BillRouteView {
            dataset: opt_view(self.dataset),
            country: self.country@,
            state: self.state@,
            session: self.session@,
            bill_id: self.bill_id@,
        }
    }
}

/// What the scan of a document id's segments has found after the first `n`
/// segments. Later occurrences overwrite earlier ones.
pub struct RouteScan {
    pub country_at: Option<int>,
    pub country: Option<Seq<char>>,
    pub state: Option<Seq<char>>,
    pub session: Option<Seq<char>>,
    pub bill: Option<Seq<char>>,
}

pub open spec fn seg_at(segs: Seq<Seq<char>>, i: int) -> Option<Seq<char>> {
    if 0 <= i < segs.len() {
        Some(segs[i])
    } else {
        None
    }
}

pub open spec fn scan_route(segs: Seq<Seq<char>>, n: int) -> RouteScan
    decreases n,
{
    if n <= 0 {
        RouteScan { country_at: None, country: None, state: None, session: None, bill: None }
    } else {
        let r = scan_route(segs, n - 1);
        let i = n - 1;
        let seg = segs[i];
        if is_prefix("country:"@, seg) {
            RouteScan {
                country_at: if r.country_at is None {
                    Some(i)
                } else {
                    r.country_at
                },
                country: Some(seg.skip("country:"@.len() as int)),
                state: r.state,
                session: r.session,
                bill: r.bill,
            }
        } else if is_prefix("state:"@, seg) {
            RouteScan {
                country_at: r.country_at,
                country: r.country,
                state: Some(seg.skip("state:"@.len() as int)),
                session: r.session,
                bill: r.bill,
            }
        } else if seg == "sessions"@ {
            RouteScan {
                country_at: r.country_at,
                country: r.country,
                state: r.state,
                session: seg_at(segs, i + 1),
                bill: r.bill,
            }
        } else if seg == "bills"@ {
            RouteScan {
                country_at: r.country_at,
                country: r.country,
                state: r.state,
                session: r.session,
                bill: seg_at(segs, i + 1),
            }
        } else {
            r
        }
    }
}

/// The non-empty items of `parts`, joined with `/`.
pub open spec fn join_nonempty(parts: Seq<Seq<char>>) -> Seq<char>
    decreases parts.len(),
{
    if parts.len() == 0 {
        Seq::empty()
    } else {
        let r = join_nonempty(parts.drop_last());
        let l = parts.last();
        if l.len() == 0 {
            r
        } else if r.len() == 0 {
            l
        } else {
            r + "/"@ + l
        }
    }
}

/// `parse_doc_route`, stated over the view of the document id.
pub open spec fn doc_route(doc: Seq<char>) -> Option<BillRouteView> {
    let segs = split(doc, "/"@);
    let r = scan_route(segs, segs.len() as int);
    if r.country is Some && r.state is Some && r.session is Some && r.bill is Some {
        Some(
            BillRouteView {
                dataset: match r.country_at {
                    Some(i) => {
                        let j = join_nonempty(segs.take(i));
                        if j.len() == 0 {
                            None
                        } else {
                            Some(j)
                        }
                    },
                    None => None,
                },
                country: r.country->0,
                state: r.state->0,
                session: r.session->0,
                bill_id: r.bill->0,
            },
        )
    } else {
        None
    }
}

fn seg_at_exec(segs: &Vec<String>, i: usize) -> (r: Option<String>)
    ensures
        opt_view(r) == seg_at(views(segs@), i as int),
{
    if i < segs.len() {
        Some(copy_str(segs[i].as_str()))
    } else {
        None
    }
}

/// Joins the non-empty items of `parts[..n]` with `/`.
fn join_nonempty_exec(parts: &Vec<String>, n: usize) -> (r: String)
    requires
        n <= parts.len(),
    ensures
        r@ == join_nonempty(views(parts@).take(n as int)),
{
    let mut r = String::new();
    let mut i: usize = 0;
    proof {
        assert(views(parts@).take(0) =~= Seq::<Seq<char>>::empty());
    }
    while i < n
        invariant
            i <= n <= parts.len(),
            r@ == join_nonempty(views(parts@).take(i as int)),
        decreases n - i,
    {
        let ghost prev = views(parts@).take(i as int);
        let ghost next = views(parts@).take(i + 1);
        proof {
            assert(next.drop_last() =~= prev);
            assert(next.last() == parts@[i as int]@);
        }
        let p = &parts[i];
        if !is_blank_empty(p.as_str()) {
            if r.unicode_len() == 0 {
                r = copy_str(p.as_str());
            } else {
                r.append("/");
                r.append(p.as_str());
            }
        }
        i = i + 1;
    }
    r
}

/// True when `s` is the empty string.
fn is_blank_empty(s: &str) -> (b: bool)
    ensures
        b == (s@.len() == 0),
{
    s.unicode_len() == 0
}

/// Parse a `doc` id of the form
/// `<dataset>/country:<c>/state:<s>/sessions/<session>/bills/<bill_id>` into
/// the pieces needed to place its tag file. Returns `None` for an id that is
/// not a dataset bill path.
pub fn parse_doc_route(doc: &str) -> (r: Option<BillRoute>)
    ensures
        match r {
            Some(route) => doc_route(doc@) == Some(route@),
            None => doc_route(doc@) is None,
        },
{
    proof {
        reveal_strlit("/");
    }
    let segs = split_str(doc, "/");
    let ghost sv = views(segs@);
    let mut country: Option<String> = None;
    let mut country_at: Option<usize> = None;
    let mut state: Option<String> = None;
    let mut session: Option<String> = None;
    let mut bill: Option<String> = None;
    let mut i: usize = 0;
    while i < segs.len()
        invariant
            i <= segs.len(),
            sv == views(segs@),
            sv == split(doc@, "/"@),
            ({
                let sc = scan_route(sv, i as int);
                &&& opt_view(country) == sc.country
                &&& opt_view(state) == sc.state
                &&& opt_view(session) == sc.session
                &&& opt_view(bill) == sc.bill
                &&& match country_at {
                    Some(k) => sc.country_at == Some(k as int),
                    None => sc.country_at is None,
                }
            }),
            forall|k: usize| country_at == Some(k) ==> k < i,
        decreases segs.len() - i,
    {
        let seg = segs[i].as_str();
        proof {
            assert(sv[i as int] == seg@);
        }
        if let Some(c) = strip_prefix_str(seg, "country:") {
            country = Some(c);
            if country_at.is_none() {
                country_at = Some(i);
            }
        } else if let Some(s) = strip_prefix_str(seg, "state:") {
            state = Some(s);
        } else if str_eq(seg, "sessions") {
            session = seg_at_exec(&segs, i + 1);
        } else if str_eq(seg, "bills") {
            bill = seg_at_exec(&segs, i + 1);
        }
        i = i + 1;
    }
    let dataset = match country_at {
        Some(k) => {
            let j = join_nonempty_exec(&segs, k);
            if j.unicode_len() == 0 {
                None
            } else {
                Some(j)
            }
        },
        None => None,
    };
    match (country, state, session, bill) {
        (Some(c), Some(s), Some(se), Some(b)) => Some(
            BillRoute { dataset, country: c, state: s, session: se, bill_id: b },
        ),
        _ => None,
    }
}

/// The segments of a bill's id after its dataset prefix.
pub open spec fn route_tail(
    country: Seq<char>,
    state: Seq<char>,
    session: Seq<char>,
    bill: Seq<char>,
) -> Seq<Seq<char>> {
    seq!["country:"@ + country, "state:"@ + state, "sessions"@, session, "bills"@, bill]
}

/// The document id `<prefix>/country:<c>/state:<s>/sessions/<session>/bills/<bill>`.
pub open spec fn bill_doc_id(
    prefix: Seq<Seq<char>>,
    country: Seq<char>,
    state: Seq<char>,
    session: Seq<char>,
    bill: Seq<char>,
) -> Seq<char> {
    join(prefix + route_tail(country, state, session, bill), "/"@)
}

/// The dataset a well-formed prefix names.
pub open spec fn prefix_dataset(prefix: Seq<Seq<char>>) -> Option<Seq<char>> {
    if prefix.len() == 0 {
        None
    } else {
        Some(join(prefix, "/"@))
    }
}

/// A dataset prefix segment that the route scan reads as part of the prefix.
pub open spec fn prefix_segment(s: Seq<char>) -> bool {
    s.len() > 0 && free_of(s, '/') && !is_prefix("country:"@, s)
}

/// A segment that no marker of the layout claims.
pub open spec fn unmarked(s: Seq<char>) -> bool {
    !is_prefix("country:"@, s) && !is_prefix("state:"@, s) && s != "sessions"@
}

proof fn lemma_scan_without_country(segs: Seq<Seq<char>>, n: int)
    requires
        0 <= n <= segs.len(),
        forall|k: int| 0 <= k < n ==> !is_prefix("country:"@, #[trigger] segs[k]),
    ensures
        scan_route(segs, n).country_at is None,
        scan_route(segs, n).country is None,
    decreases n,
{
    if n > 0 {
        lemma_scan_without_country(segs, n - 1);
        assert(!is_prefix("country:"@, segs[n - 1]));
    }
}

proof fn lemma_join_nonempty_of_nonempty(parts: Seq<Seq<char>>)
    requires
        forall|k: int| 0 <= k < parts.len() ==> (#[trigger] parts[k]).len() > 0,
    ensures
        join_nonempty(parts) == join(parts, "/"@),
        parts.len() > 0 ==> join_nonempty(parts).len() > 0,
    decreases parts.len(),
{
    if parts.len() > 0 {
        let init = parts.drop_last();
        assert forall|k: int| 0 <= k < init.len() implies (#[trigger] init[k]).len() > 0 by {
            assert(init[k] == parts[k]);
        }
        lemma_join_nonempty_of_nonempty(init);
        assert(parts.last().len() > 0);
    }
}

proof fn lemma_marker_facts(x: Seq<char>)
    ensures
        is_prefix("country:"@, "country:"@ + x),
        ("country:"@ + x).skip("country:"@.len() as int) == x,
        !is_prefix("country:"@, "state:"@ + x),
        is_prefix("state:"@, "state:"@ + x),
        ("state:"@ + x).skip("state:"@.len() as int) == x,
        !is_prefix("country:"@, "sessions"@),
        !is_prefix("state:"@, "sessions"@),
        !is_prefix("country:"@, "bills"@),
        !is_prefix("state:"@, "bills"@),
        "bills"@ != "sessions"@,
        free_of("country:"@ + x, '/') <==> free_of(x, '/'),
        free_of("state:"@ + x, '/') <==> free_of(x, '/'),
        free_of("sessions"@, '/'),
        free_of("bills"@, '/'),
{
    reveal_strlit("country:");
    reveal_strlit("state:");
    reveal_strlit("sessions");
    reveal_strlit("bills");
    let c = "country:"@;
    let s = "state:"@;
    assert(("country:"@ + x).take(c.len() as int) =~= c);
    assert(("country:"@ + x).skip(c.len() as int) =~= x);
    assert(("state:"@ + x).take(s.len() as int) =~= s);
    assert(("state:"@ + x).skip(s.len() as int) =~= x);
    if is_prefix(c, s + x) {
        assert((s + x).take(c.len() as int)[0] == c[0]);
    }
    if is_prefix(c, "sessions"@) {
        assert("sessions"@.take(c.len() as int)[0] == c[0]);
    }
    if is_prefix(s, "sessions"@) {
        assert("sessions"@.take(s.len() as int)[1] == s[1]);
    }
    if is_prefix(c, "bills"@) {
        assert(false);
    }
    if is_prefix(s, "bills"@) {
        assert(false);
    }
    assert("bills"@.len() != "sessions"@.len());
    if free_of(x, '/') {
        assert forall|i: int| 0 <= i < (c + x).len() implies #[trigger] (c + x)[i] != '/' by {
            if i >= c.len() {
                assert((c + x)[i] == x[i - c.len()]);
            }
        }
        assert forall|i: int| 0 <= i < (s + x).len() implies #[trigger] (s + x)[i] != '/' by {
            if i >= s.len() {
                assert((s + x)[i] == x[i - s.len()]);
            }
        }
    }
    if free_of(c + x, '/') {
        assert forall|i: int| 0 <= i < x.len() implies #[trigger] x[i] != '/' by {
            assert((c + x)[i + c.len()] == x[i]);
        }
    }
    if free_of(s + x, '/') {
        assert forall|i: int| 0 <= i < x.len() implies #[trigger] x[i] != '/' by {
            assert((s + x)[i + s.len()] == x[i]);
        }
    }
}

/// What `govbot apply` reads back from a bill's document id is the bill's
/// place in the dataset: its dataset prefix, country, state, session and
/// bill id. The prefix segments must be non-empty and must not open with
/// `country:`; the session must not be claimed by a marker of the layout,
/// nor the bill either, and the bill must not read `bills`.
pub proof fn law_doc_route_round_trip(
    prefix: Seq<Seq<char>>,
    country: Seq<char>,
    state: Seq<char>,
    session: Seq<char>,
    bill: Seq<char>,
)
    requires
        forall|k: int| 0 <= k < prefix.len() ==> prefix_segment(#[trigger] prefix[k]),
        free_of(country, '/'),
        free_of(state, '/'),
        free_of(session, '/'),
        free_of(bill, '/'),
        unmarked(session),
        unmarked(bill),
        bill != "bills"@,
    ensures
        doc_route(bill_doc_id(prefix, country, state, session, bill)) == Some(
            BillRouteView {
                dataset: prefix_dataset(prefix),
                country,
                state,
                session,
                bill_id: bill,
            },
        ),
{
    reveal_strlit("/");
    assert("/"@ =~= seq!['/']);
    lemma_marker_facts(country);
    lemma_marker_facts(state);
    let tail = route_tail(country, state, session, bill);
    let segs = prefix + tail;
    let p = prefix.len() as int;
    assert forall|k: int| 0 <= k < segs.len() implies free_of(#[trigger] segs[k], '/') by {
        if k < p {
            assert(segs[k] == prefix[k]);
        } else {
            assert(segs[k] == tail[k - p]);
        }
    }
    lemma_split_join(segs, '/');
    assert(split(bill_doc_id(prefix, country, state, session, bill), "/"@) == segs);
    assert forall|k: int| 0 <= k < p implies !is_prefix("country:"@, #[trigger] segs[k]) by {
        assert(segs[k] == prefix[k]);
        assert(prefix_segment(prefix[k]));
    }
    lemma_scan_without_country(segs, p);
    assert(segs[p] == "country:"@ + country);
    assert(segs[p + 1] == "state:"@ + state);
    assert(segs[p + 2] == "sessions"@);
    assert(segs[p + 3] == session);
    assert(segs[p + 4] == "bills"@);
    assert(segs[p + 5] == bill);
    assert(segs.len() == p + 6);
    let r1 = scan_route(segs, p + 1);
    assert(r1.country_at == Some(p) && r1.country == Some(country));
    let r2 = scan_route(segs, p + 2);
    assert(r2.country_at == Some(p) && r2.country == Some(country) && r2.state == Some(state));
    let r3 = scan_route(segs, p + 3);
    assert(r3.session == Some(session) && r3.state == Some(state));
    assert(r3.country_at == Some(p) && r3.country == Some(country));
    let r4 = scan_route(segs, p + 4);
    assert(r4.session == Some(session) && r4.state == Some(state));
    assert(r4.country_at == Some(p) && r4.country == Some(country));
    let r5 = scan_route(segs, p + 5);
    assert(r5.bill == Some(bill) && r5.session == Some(session) && r5.state == Some(state));
    assert(r5.country_at == Some(p) && r5.country == Some(country));
    let r6 = scan_route(segs, p + 6);
    assert(r6 == r5);
    assert(segs.take(p) =~= prefix);
    assert forall|k: int| 0 <= k < prefix.len() implies (#[trigger] prefix[k]).len() > 0 by {
        assert(prefix_segment(prefix[k]));
    }
    lemma_join_nonempty_of_nonempty(prefix);
}

/// The `<dir>` of a `<...>/bills/<dir>/metadata.json` path.
pub open spec fn bill_dir_of(p: Seq<char>) -> Option<Seq<char>> {
    if !is_suffix("/metadata.json"@, p) {
        None
    } else {
        let w = p.take(p.len() - "/metadata.json"@.len());
        match rfind(w, "/"@) {
            None => None,
            Some(k) => {
                let dir = w.skip(k + 1);
                let before = w.take(k);
                if !(is_suffix("/bills"@, before) || before == "bills"@) {
                    None
                } else if dir.len() == 0 {
                    None
                } else {
                    Some(dir)
                }
            },
        }
    }
}

/// A `<root>/bills/<dir>/metadata.json` path names the directory `<dir>`,
/// when that is a non-empty path segment.
pub proof fn lemma_bill_dir_of_metadata_path(root: Seq<char>, dir: Seq<char>)
    requires
        dir.len() > 0,
        free_of(dir, '/'),
    ensures
        bill_dir_of(root + "/bills/"@ + dir + "/metadata.json"@) == Some(dir),
{
    reveal_strlit("/metadata.json");
    reveal_strlit("/bills/");
    reveal_strlit("/bills");
    reveal_strlit("/");
    let p = root + "/bills/"@ + dir + "/metadata.json"@;
    let m = "/metadata.json"@;
    assert(p.skip(p.len() - m.len()) =~= m);
    let w = p.take(p.len() - m.len());
    assert(w =~= root + "/bills/"@ + dir);
    let k0: int = root.len() as int + 6;
    assert("/"@ =~= seq!['/']);
    crate::text::lemma_occurs_char(w, '/', k0);
    assert(w[k0] == '/');
    lemma_rfind_props(w, "/"@);
    let k = rfind(w, "/"@)->0;
    if k < k0 {
        assert(false);
    }
    if k > k0 {
        crate::text::lemma_occurs_char(w, '/', k);
        assert(w[k] == dir[k - k0 - 1]);
        assert(false);
    }
    assert(w.skip(k0 + 1) =~= dir);
    let before = w.take(k0);
    assert(before =~= root + "/bills"@);
    assert(before.skip(before.len() - "/bills"@.len()) =~= "/bills"@);
}

/// Given a `sources.bill` path (`<...>/bills/<dir>/metadata.json`), the
/// `<dir>` segment — the canonical on-disk bill directory name. `None` if the
/// path does not end in `bills/<dir>/metadata.json`.
pub fn bill_dir_from_metadata_path(metadata_path: &str) -> (r: Option<String>)
    ensures
        opt_view(r) == bill_dir_of(metadata_path@),
{
    let w = match strip_suffix_str(metadata_path, "/metadata.json") {
        Some(w) => w,
        None => return None,
    };
    let wv = chars_of(w.as_str());
    let slash = chars_of("/");
    proof {
        reveal_strlit("/");
        lemma_rfind_props(wv@, slash@);
    }
    let found = rfind_exec(&wv, &slash);
    let k = match found {
        Some(k) => k,
        None => return None,
    };
    assert(k + 1 <= wv.len());
    let dir = string_from(&wv, k + 1, wv.len());
    let before = string_from(&wv, 0, k);
    proof {
        assert(wv@.subrange(k + 1, wv@.len() as int) =~= wv@.skip(k + 1));
        assert(wv@.subrange(0, k as int) =~= wv@.take(k as int));
    }
    if !(ends_with_str(before.as_str(), "/bills") || str_eq(before.as_str(), "bills")) {
        return None;
    }
    if dir.unicode_len() == 0 {
        None
    } else {
        Some(dir)
    }
}

/// Index of the first `_` or `.` in `s`, at or after `start`.
pub open spec fn find_sep_from(s: Seq<char>, start: int) -> Option<int>
    decreases s.len() - start,
{
    if start < 0 || start >= s.len() {
        None
    } else if s[start] == '_' || s[start] == '.' {
        Some(start)
    } else {
        find_sep_from(s, start + 1)
    }
}

/// The timestamp a log file name starts with: the text after `/logs/` and
/// before the first `_` or `.`.
pub open spec fn timestamp_of(path: Seq<char>) -> Option<Seq<char>> {
    match find(path, "/logs/"@) {
        None => None,
        Some(k) => {
            let after = path.skip(k + "/logs/"@.len());
            match find_sep_from(after, 0) {
                None => None,
                Some(e) => if e == 0 {
                    None
                } else {
                    Some(after.take(e))
                },
            }
        },
    }
}

/// Extract the timestamp from a log path:
/// `path/to/logs/20250121T000000Z_filename.json` -> `20250121T000000Z`.
pub fn extract_timestamp_from_path(path: &str) -> (r: Option<String>)
    ensures
        opt_view(r) == timestamp_of(path@),
{
    let pv = chars_of(path);
    let logs = chars_of("/logs/");
    proof {
        lemma_find_props(pv@, logs@);
    }
    let found = find_exec(&pv, &logs);
    let k = match found {
        Some(k) => k,
        None => return None,
    };
    assert(k + logs.len() <= pv.len());
    let start = k + logs.len();
    let ghost after = pv@.skip(start as int);
    let mut e = start;
    while e < pv.len() && pv[e] != '_' && pv[e] != '.'
        invariant
            start <= e <= pv.len(),
            after == pv@.skip(start as int),
            find_sep_from(after, 0) == find_sep_from(after, e - start),
        decreases pv.len() - e,
    {
        proof {
            assert(after[e - start] == pv@[e as int]);
        }
        e = e + 1;
    }
    if e == pv.len() {
        return None;
    }
    proof {
        assert(after[e - start] == pv@[e as int]);
    }
    if e == start {
        return None;
    }
    proof {
        assert(after.take(e - start) =~= pv@.subrange(start as int, e as int));
    }
    Some(string_from(&pv, start, e))
}

/// The text of `s` after `lit`'s first occurrence, up to the next `/`.
pub open spec fn segment_after(path: Seq<char>, lit: Seq<char>) -> Option<Seq<char>> {
    match find(path, lit) {
        None => None,
        Some(k) => Some(before_first(path.skip(k + lit.len()), "/"@)),
    }
}

fn segment_after_exec(path: &str, lit: &str) -> (r: Option<String>)
    ensures
        opt_view(r) == segment_after(path@, lit@),
{
    let pv = chars_of(path);
    let lv = chars_of(lit);
    proof {
        lemma_find_props(pv@, lv@);
    }
    let found = find_exec(&pv, &lv);
    match found {
        None => None,
        Some(k) => {
            assert(k + lv.len() <= pv.len());
            let rest = string_from(&pv, k + lv.len(), pv.len());
            proof {
                assert(pv@.subrange(k + lv.len(), pv@.len() as int) =~= pv@.skip(k + lv@.len()));
            }
            Some(before_first_str(rest.as_str(), "/"))
        },
    }
}

/// Extract country, state and session id from a path of the form
/// `.../country:us/state:il/sessions/104th/...`.
pub fn extract_path_info(path: &str) -> (r: Option<(String, String, String)>)
    ensures
        match r {
            Some((c, s, se)) => segment_after(path@, "country:"@) == Some(c@) && segment_after(
                path@,
                "/state:"@,
            ) == Some(s@) && segment_after(path@, "/sessions/"@) == Some(se@),
            None => segment_after(path@, "country:"@) is None || segment_after(
                path@,
                "/state:"@,
            ) is None || segment_after(path@, "/sessions/"@) is None,
        },
{
    let c = segment_after_exec(path, "country:")?;
    let s = segment_after_exec(path, "/state:")?;
    let se = segment_after_exec(path, "/sessions/")?;
    Some((c, s, se))
}

/// `dataset_short_name`: strip the dataset suffix (or the legacy
/// `-data-pipeline` one) from a repo directory name.
pub open spec fn short_name_of(prefix: Seq<char>, suffix: Seq<char>) -> Seq<char> {
    if is_suffix(suffix, prefix) {
        prefix.take(prefix.len() - suffix.len())
    } else if is_suffix("-data-pipeline"@, prefix) {
        prefix.take(prefix.len() - "-data-pipeline"@.len())
    } else {
        prefix
    }
}

/// Map a dataset prefix from a doc id (e.g. `nj-legislation`) to the bare
/// short name (`nj`) that the on-disk listing uses.
pub fn dataset_short_name(prefix: &str, suffix: &str) -> (r: String)
    ensures
        r@ == short_name_of(prefix@, suffix@),
{
    if let Some(s) = strip_suffix_str(prefix, suffix) {
        s
    } else if let Some(s) = strip_suffix_str(prefix, "-data-pipeline") {
        s
    } else {
        copy_str(prefix)
    }
}

/// Parse a join string like `bill.title` into `(dataset, field_path)`.
pub fn parse_join_string(join_str: &str) -> (r: Option<(String, Vec<String>)>)
    ensures
        r matches Some((name, path)) && name@ == split(join_str@, "."@)[0] && views(path@)
            == split(join_str@, "."@).drop_first(),
{
    proof {
        reveal_strlit(".");
    }
    let mut parts = split_str(join_str, ".");
    proof {
        lemma_split_nonempty(join_str@, "."@);
    }
    let ghost all = views(parts@);
    let first = parts.remove(0);
    proof {
        assert(views(parts@) =~= all.drop_first());
    }
    Some((first, parts))
}

} // verus!
