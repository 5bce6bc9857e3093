//! The `bluesky` publisher's decisions: post text (template, title,
//! truncation to the post limit), credentials, the posted-state ledger and
//! which posts are still pending.
use vstd::prelude::*;
use crate::anchor::{join_path, path_join};
use crate::json::{
    Json, JsonV, array_opt, get, get_opt, json_text_value, jvo, lemma_jvo_index, or_opt,
    parse_json_text, str_opt, as_str,
};
use crate::num::{decimal, usize_to_string};
use crate::route::opt_view;
use crate::text::{
    all_ws, chars_of, concat2, copy_str, is_blank, is_whitespace, is_ws, join, join_strs,
    push_char, replace_all, replace_str, split, split_trimmed, str_eq, string_from, trim, trim_end,
    trim_end_str, trim_str, trimmed_nonempty, views, is_prefix, starts_with_str, contains,
};

verus! {

/// Bluesky's post-text limit, in characters.
pub const POST_TEXT_LIMIT: usize = 300;

// ------------------------------------------------------------------
// Truncation
// ------------------------------------------------------------------

/// The number of UTF-8 bytes that encode `c`.
pub open spec fn utf8_width(c: char) -> nat {
    let u = c as u32;
    if u < 0x80 {
        1
    } else if u < 0x800 {
        2
    } else if u < 0x10000 {
        3
    } else {
        4
    }
}

/// The number of UTF-8 bytes that encode `s`.
pub open spec fn byte_len(s: Seq<char>) -> nat
    decreases s.len(),
{
    if s.len() == 0 {
        0
    } else {
        byte_len(s.drop_last()) + utf8_width(s.last())
    }
}

/// The position of the last whitespace character.
pub open spec fn last_ws(s: Seq<char>) -> Option<int>
    decreases s.len(),
{
    if s.len() == 0 {
        None
    } else if is_ws(s.last()) {
        Some(s.len() - 1)
    } else {
        last_ws(s.drop_last())
    }
}

/// A post's text: trimmed; when longer than the limit, its first 299
/// characters, cut back to the last whitespace when that lies more than
/// 150 bytes in, trailing whitespace removed, and an ellipsis appended.
pub open spec fn truncate_spec(text: Seq<char>) -> Seq<char> {
    let t = trim(text);
    if t.len() <= 300 {
        t
    } else {
        let out = t.take(299);
        let cut = match last_ws(out) {
            Some(k) => if byte_len(out.take(k)) > 150 {
                out.take(k)
            } else {
                out
            },
            None => out,
        };
        trim_end(cut).push('\u{2026}')
    }
}

proof fn lemma_trim_end_len(s: Seq<char>)
    ensures
        trim_end(s).len() <= s.len(),
    decreases s.len(),
{
    if s.len() > 0 && is_ws(s.last()) {
        lemma_trim_end_len(s.drop_last());
    }
}

/// A post is never longer than the limit; a trimmed text within the limit
/// is posted as it is; a longer one ends with an ellipsis.
pub proof fn law_truncate_respects_limit(text: Seq<char>)
    ensures
        truncate_spec(text).len() <= 300,
        trim(text).len() <= 300 ==> truncate_spec(text) == trim(text),
        trim(text).len() > 300 ==> truncate_spec(text).last() == '\u{2026}',
{
    let t = trim(text);
    if t.len() > 300 {
        let out = t.take(299);
        let cut = match last_ws(out) {
            Some(k) => if byte_len(out.take(k)) > 150 {
                out.take(k)
            } else {
                out
            },
            None => out,
        };
        proof_last_ws_in_range(out);
        lemma_trim_end_len(cut);
    }
}

proof fn proof_last_ws_in_range(s: Seq<char>)
    ensures
        last_ws(s) matches Some(k) ==> 0 <= k < s.len(),
    decreases s.len(),
{
    if s.len() > 0 && !is_ws(s.last()) {
        proof_last_ws_in_range(s.drop_last());
    }
}

fn utf8_width_exec(c: char) -> (w: usize)
    ensures
        w == utf8_width(c),
{
    let u = c as u32;
    if u < 0x80 {
        1
    } else if u < 0x800 {
        2
    } else if u < 0x10000 {
        3
    } else {
        4
    }
}

/// The UTF-8 length of `s` in bytes, capped at `usize::MAX`.
pub fn utf8_len(s: &str) -> (n: usize)
    ensures
        n == (if byte_len(s@) <= usize::MAX {
            byte_len(s@)
        } else {
            usize::MAX as nat
        }),
{
    let v = chars_of(s);
    let mut n: usize = 0;
    let mut capped = false;
    let mut j: usize = 0;
    proof {
        assert(v@.take(0) =~= Seq::<char>::empty());
    }
    while j < v.len()
        invariant
            j <= v.len(),
            capped ==> n == usize::MAX && byte_len(v@.take(j as int)) >= usize::MAX,
            !capped ==> n == byte_len(v@.take(j as int)),
        decreases v.len() - j,
    {
        proof {
            assert(v@.take(j + 1).drop_last() =~= v@.take(j as int));
            assert(v@.take(j + 1).last() == v@[j as int]);
        }
        let w = utf8_width_exec(v[j]);
        if capped || n > usize::MAX - w {
            n = usize::MAX;
            capped = true;
        } else {
            n = n + w;
        }
        j = j + 1;
    }
    proof {
        assert(v@.take(v@.len() as int) =~= v@);
    }
    n
}

/// Truncate post text to the limit (see `truncate_spec`).
pub fn truncate_post(text: &str) -> (r: String)
    ensures
        r@ == truncate_spec(text@),
        r@.len() <= POST_TEXT_LIMIT,
{
    proof {
        law_truncate_respects_limit(text@);
    }
    let t = trim_str(text);
    let v = chars_of(t.as_str());
    if v.len() <= POST_TEXT_LIMIT {
        return t;
    }
    let out_len: usize = POST_TEXT_LIMIT - 1;
    let ghost out = v@.take(299);
    let mut k: usize = out_len;
    proof {
        assert(out.take(299) =~= out);
    }
    while k > 0 && !is_whitespace(v[k - 1])
        invariant
            k <= out_len,
            out_len == 299,
            v@.len() > 300,
            out == v@.take(299),
            last_ws(out) == last_ws(out.take(k as int)),
        decreases k,
    {
        proof {
            assert(out.take(k as int).drop_last() =~= out.take(k - 1));
            assert(out.take(k as int).last() == v@[k - 1]);
        }
        k = k - 1;
    }
    proof {
        if k > 0 {
            assert(out.take(k as int).last() == v@[k - 1]);
            assert(last_ws(out.take(k as int)) == Some(k - 1));
        } else {
            assert(out.take(0) =~= Seq::<char>::empty());
        }
        assert(out.take(out_len as int) =~= out);
    }
    let mut cut: usize = out_len;
    if k > 0 {
        let idx = k - 1;
        let mut bytes: usize = 0;
        let mut j: usize = 0;
        while j < idx
            invariant
                j <= idx,
                idx < 299,
                v@.len() > 300,
                bytes == byte_len(v@.take(j as int)),
                bytes <= 4 * j,
            decreases idx - j,
        {
            let w = utf8_width_exec(v[j]);
            proof {
                assert(v@.take(j + 1).drop_last() =~= v@.take(j as int));
            }
            bytes = bytes + w;
            j = j + 1;
        }
        proof {
            assert(out.take(idx as int) =~= v@.take(idx as int));
        }
        if bytes > POST_TEXT_LIMIT / 2 {
            cut = idx;
        }
    }
    let head = string_from(&v, 0, cut);
    proof {
        assert(v@.subrange(0, cut as int) =~= out.take(cut as int));
        assert(t@ == trim(text@));
    }
    let mut r = trim_end_str(head.as_str());
    push_char(&mut r, '\u{2026}');
    proof {
        if cut == out_len {
            assert(out.take(cut as int) =~= out);
        }
    }
    r
}

// ------------------------------------------------------------------
// Post text
// ------------------------------------------------------------------

/// The default post template.
pub open spec fn default_template() -> Seq<char> {
    "{title}\n\n{tags} \u{b7} {link}"@
}

/// A bill's post title: its trimmed `title`, else its identifier (or the
/// record id), else `Legislative update`.
pub open spec fn bill_title_spec(e: JsonV) -> Seq<char> {
    let bill = get(e, "bill"@);
    let title_ok = match str_opt(get_opt(bill, "title"@)) {
        Some(t) => trim(t).len() > 0,
        None => false,
    };
    if title_ok {
        trim(str_opt(get_opt(bill, "title"@))->0)
    } else {
        match identifier_of(e) {
            Some(id) => if id.len() > 0 {
                id
            } else {
                "Legislative update"@
            },
            None => "Legislative update"@,
        }
    }
}

/// `bill.identifier`, else the record's `id`, as a string.
pub open spec fn identifier_of(e: JsonV) -> Option<Seq<char>> {
    or_opt(str_opt(get_opt(get(e, "bill"@), "identifier"@)), str_opt(get(e, "id"@)))
}

fn str_member(o: Option<&Json>, key: &str) -> (r: Option<String>)
    ensures
        opt_view(r) == str_opt(get_opt(crate::json::opt_jv(o), key@)),
{
    match crate::json::and_get(o, key) {
        Some(x) => match x.as_str() {
            Some(s) => Some(copy_str(s)),
            None => None,
        },
        None => None,
    }
}

fn identifier_exec(entry: &Json) -> (r: Option<String>)
    ensures
        opt_view(r) == identifier_of(entry@),
{
    match str_member(entry.get("bill"), "identifier") {
        Some(s) => Some(s),
        None => match entry.get("id") {
            Some(x) => match x.as_str() {
                Some(s) => Some(copy_str(s)),
                None => None,
            },
            None => None,
        },
    }
}

/// Best-effort bill title (see `bill_title_spec`).
pub fn bill_title(entry: &Json) -> (r: String)
    ensures
        r@ == bill_title_spec(entry@),
{
    match str_member(entry.get("bill"), "title") {
        Some(t) => {
            let tt = trim_str(t.as_str());
            if tt.unicode_len() > 0 {
                return tt;
            }
        },
        None => {},
    }
    match identifier_exec(entry) {
        Some(id) => if id.unicode_len() > 0 {
            id
        } else {
            copy_str("Legislative update")
        },
        None => copy_str("Legislative update"),
    }
}

/// The names of a record's tags, in order, joined with `, `.
pub open spec fn tag_list_spec(e: JsonV) -> Seq<char> {
    match get(e, "tags"@) {
        Some(JsonV::Object(m)) => join(m.map_values(|x: (Seq<char>, JsonV)| x.0), ", "@),
        _ => Seq::empty(),
    }
}

fn tag_list(entry: &Json) -> (r: String)
    ensures
        r@ == tag_list_spec(entry@),
{
    match entry.get("tags") {
        Some(Json::Object(m)) => {
            let mut names: Vec<String> = Vec::new();
            let mut i: usize = 0;
            proof {
                lemma_jvo_index(m@);
            }
            while i < m.len()
                invariant
                    i <= m.len(),
                    jvo(m@).len() == m@.len(),
                    forall|j: int|
                        0 <= j < m.len() ==> #[trigger] jvo(m@)[j] == (m@[j].0@, crate::json::jv(
                            m@[j].1,
                        )),
                    views(names@) == jvo(m@).take(i as int).map_values(
                        |x: (Seq<char>, JsonV)| x.0,
                    ),
                decreases m.len() - i,
            {
                let ghost before = names@;
                names.push(copy_str(m[i].0.as_str()));
                proof {
                    assert(views(names@) =~= views(before).push(m@[i as int].0@));
                    assert(jvo(m@).take(i + 1).map_values(|x: (Seq<char>, JsonV)| x.0)
                        =~= jvo(m@).take(i as int).map_values(|x: (Seq<char>, JsonV)| x.0).push(
                        jvo(m@)[i as int].0,
                    ));
                }
                i = i + 1;
            }
            proof {
                assert(jvo(m@).take(m@.len() as int) =~= jvo(m@));
            }
            join_strs(&names, ", ")
        },
        _ => String::new(),
    }
}

/// The text of a post: the template (or the default one) with `{title}`,
/// `{tags}`, `{link}`, `{identifier}`, `{session}` and `{score}` replaced,
/// in that order, then truncated to the limit. `link` and `score` are
/// rendered by the caller.
pub open spec fn post_text_spec(
    e: JsonV,
    template: Option<Seq<char>>,
    link: Seq<char>,
    score: Seq<char>,
) -> Seq<char> {
    let t = match template {
        Some(t) => t,
        None => default_template(),
    };
    let identifier = match identifier_of(e) {
        Some(i) => i,
        None => Seq::empty(),
    };
    let session = match str_opt(get_opt(get(e, "bill"@), "legislative_session"@)) {
        Some(s) => s,
        None => Seq::empty(),
    };
    let text = replace_all(
        replace_all(
            replace_all(
                replace_all(
                    replace_all(replace_all(t, "{title}"@, bill_title_spec(e)), "{tags}"@, tag_list_spec(e)),
                    "{link}"@,
                    link,
                ),
                "{identifier}"@,
                identifier,
            ),
            "{session}"@,
            session,
        ),
        "{score}"@,
        score,
    );
    truncate_spec(text)
}

/// The bill's `legislative_session` string, or nothing.
pub open spec fn session_text(e: JsonV) -> Seq<char> {
    match get(e, "bill"@) {
        Some(b) => match get(b, "legislative_session"@) {
            Some(JsonV::Str(s)) => s,
            _ => Seq::empty(),
        },
        None => Seq::empty(),
    }
}

/// A template whose only placeholder is `{session}` renders as the
/// template with `{session}` replaced by the bill's `legislative_session`
/// (nothing when absent), when that text is within the post limit, has no
/// surrounding whitespace and holds no `{score}`.
pub proof fn law_session_placeholder_is_the_session(
    e: JsonV,
    template: Seq<char>,
    link: Seq<char>,
    score: Seq<char>,
)
    requires
        !contains(template, "{title}"@),
        !contains(template, "{tags}"@),
        !contains(template, "{link}"@),
        !contains(template, "{identifier}"@),
        !contains(template, "{score}"@),
        !contains(replace_all(template, "{session}"@, session_text(e)), "{score}"@),
        trim(replace_all(template, "{session}"@, session_text(e))) == replace_all(
            template,
            "{session}"@,
            session_text(e),
        ),
        replace_all(template, "{session}"@, session_text(e)).len() <= POST_TEXT_LIMIT,
    ensures
        post_text_spec(e, Some(template), link, score) == replace_all(
            template,
            "{session}"@,
            session_text(e),
        ),
{
    let x = replace_all(template, "{session}"@, session_text(e));
    crate::text::lemma_replace_absent(template, "{title}"@, bill_title_spec(e));
    crate::text::lemma_replace_absent(template, "{tags}"@, tag_list_spec(e));
    crate::text::lemma_replace_absent(template, "{link}"@, link);
    crate::text::lemma_replace_absent(template, "{identifier}"@, match identifier_of(e) {
        Some(i) => i,
        None => Seq::empty(),
    });
    crate::text::lemma_replace_absent(x, "{score}"@, score);
    assert(session_text(e) == match str_opt(get_opt(get(e, "bill"@), "legislative_session"@)) {
        Some(s) => s,
        None => Seq::empty(),
    });
}

/// Render a record's post text (see `post_text_spec`).
pub fn render_post_text(entry: &Json, template: Option<&str>, link: &str, score: &str) -> (r: String)
    ensures
        r@ == post_text_spec(entry@, crate::pipeline::opt_str_view(template), link@, score@),
{
    proof {
        reveal_strlit("{title}");
        reveal_strlit("{tags}");
        reveal_strlit("{link}");
        reveal_strlit("{identifier}");
        reveal_strlit("{session}");
        reveal_strlit("{score}");
    }
    let t = match template {
        Some(t) => copy_str(t),
        None => copy_str("{title}\n\n{tags} \u{b7} {link}"),
    };
    let title = bill_title(entry);
    let tags = tag_list(entry);
    let identifier = match identifier_exec(entry) {
        Some(i) => i,
        None => String::new(),
    };
    let session = match str_member(entry.get("bill"), "legislative_session") {
        Some(s) => s,
        None => String::new(),
    };
    let a = replace_str(t.as_str(), "{title}", title.as_str());
    let b = replace_str(a.as_str(), "{tags}", tags.as_str());
    let c = replace_str(b.as_str(), "{link}", link);
    let d = replace_str(c.as_str(), "{identifier}", identifier.as_str());
    let e = replace_str(d.as_str(), "{session}", session.as_str());
    let f = replace_str(e.as_str(), "{score}", score);
    truncate_post(f.as_str())
}

// ------------------------------------------------------------------
// Credentials and service
// ------------------------------------------------------------------

/// Whether both credentials are present: set and not blank.
pub open spec fn creds_spec(handle: Option<Seq<char>>, password: Option<Seq<char>>) -> bool {
    (handle matches Some(h) && !all_ws(h)) && (password matches Some(p) && !all_ws(p))
}

/// True when the account handle and app password are both set and not
/// blank (their values are read from the environment by the caller).
pub fn creds_present(handle: Option<&str>, password: Option<&str>) -> (b: bool)
    ensures
        b == creds_spec(
            crate::pipeline::opt_str_view(handle),
            crate::pipeline::opt_str_view(password),
        ),
{
    let h = match handle {
        Some(h) => !is_blank(h),
        None => false,
    };
    let p = match password {
        Some(p) => !is_blank(p),
        None => false,
    };
    h && p
}

/// The PDS service: the configured one when not blank, else
/// `https://bsky.social`.
pub fn service_url(configured: Option<&str>) -> (r: String)
    ensures
        r@ == match crate::pipeline::opt_str_view(configured) {
            Some(s) => if all_ws(s) {
                "https://bsky.social"@
            } else {
                s
            },
            None => "https://bsky.social"@,
        },
{
    match configured {
        Some(s) => if is_blank(s) {
            copy_str("https://bsky.social")
        } else {
            copy_str(s)
        },
        None => copy_str("https://bsky.social"),
    }
}

/// `s` without trailing `/` characters.
pub open spec fn trim_slashes(s: Seq<char>) -> Seq<char>
    decreases s.len(),
{
    if s.len() > 0 && s.last() == '/' {
        trim_slashes(s.drop_last())
    } else {
        s
    }
}

/// `s` without its trailing `/` characters.
fn strip_trailing_slashes(s: &str) -> (r: String)
    ensures
        r@ == trim_slashes(s@),
{
    let v = chars_of(s);
    let mut n = v.len();
    proof {
        assert(v@.take(v@.len() as int) =~= v@);
    }
    while n > 0 && v[n - 1] == '/'
        invariant
            n <= v.len(),
            trim_slashes(v@) == trim_slashes(v@.take(n as int)),
        decreases n,
    {
        proof {
            assert(v@.take(n as int).drop_last() =~= v@.take(n - 1));
        }
        n = n - 1;
    }
    proof {
        assert(v@.take(v@.len() as int) =~= v@);
        assert(v@.subrange(0, n as int) =~= v@.take(n as int));
    }
    string_from(&v, 0, n)
}

/// The URL of an XRPC method: the service without trailing slashes, then
/// `/xrpc/<method>`.
pub fn xrpc_url(service: &str, method: &str) -> (r: String)
    ensures
        r@ == trim_slashes(service@) + "/xrpc/"@ + method@,
{
    let base = strip_trailing_slashes(service);
    crate::text::concat3(base.as_str(), "/xrpc/", method)
}

/// The first `bill.sources[].url` of a record.
pub open spec fn first_source_url(e: JsonV) -> Option<Seq<char>> {
    match array_opt(get_opt(get(e, "bill"@), "sources"@)) {
        Some(a) => if a.len() > 0 {
            str_opt(get(a[0], "url"@))
        } else {
            None
        },
        None => None,
    }
}

/// The `{link}` of a post: with a publisher `base_url`, that URL (without
/// trailing slashes), `/`, and the record's `sources.bill` path; otherwise
/// the bill's first source URL, or nothing.
pub open spec fn post_link_spec(e: JsonV, base_url: Option<Seq<char>>) -> Seq<char> {
    match (base_url, str_opt(get_opt(get(e, "sources"@), "bill"@))) {
        (Some(b), Some(src)) => trim_slashes(b) + "/"@ + src,
        _ => match first_source_url(e) {
            Some(u) => u,
            None => Seq::empty(),
        },
    }
}

/// The `{link}` of a post (see `post_link_spec`).
pub fn post_link(entry: &Json, base_url: Option<&str>) -> (r: String)
    ensures
        r@ == post_link_spec(entry@, crate::pipeline::opt_str_view(base_url)),
{
    let bill_source = str_member(entry.get("sources"), "bill");
    if let (Some(base), Some(src)) = (base_url, &bill_source) {
        let b = strip_trailing_slashes(base);
        return crate::text::concat3(b.as_str(), "/", src.as_str());
    }
    let url = match crate::json::and_get(entry.get("bill"), "sources") {
        Some(s) => match s.as_array() {
            Some(a) => {
                proof {
                    crate::json::lemma_jvs_index(a@);
                }
                if a.len() > 0 {
                    match a[0].get("url") {
                        Some(u) => match u.as_str() {
                            Some(x) => Some(copy_str(x)),
                            None => None,
                        },
                        None => None,
                    }
                } else {
                    None
                }
            },
            None => None,
        },
        None => None,
    };
    match url {
        Some(u) => u,
        None => String::new(),
    }
}

// ------------------------------------------------------------------
// The posted-state ledger
// ------------------------------------------------------------------

/// Where the ledger is written, and the legacy location read when it does
/// not exist yet: a configured path (relative to the project) is used
/// alone; otherwise `state/bluesky-<name>.ledger`, falling back to the
/// legacy `.govbot/bluesky-<name>.ledger`.
pub open spec fn ledger_paths_spec(configured: Option<Seq<char>>, project: Seq<char>, name: Seq<char>) -> (
    Seq<char>,
    Option<Seq<char>>,
) {
    let file = "bluesky-"@ + name + ".ledger"@;
    match configured {
        Some(p) => (path_join(project, p), None),
        None => (
            path_join(path_join(project, "state"@), file),
            Some(path_join(path_join(project, ".govbot"@), file)),
        ),
    }
}

pub fn ledger_paths(configured: &Option<String>, project_dir: &str, name: &str) -> (r: (
    String,
    Option<String>,
))
    ensures
        (r.0@, opt_view(r.1)) == ledger_paths_spec(opt_view(*configured), project_dir@, name@),
{
    let file = crate::text::concat3("bluesky-", name, ".ledger");
    match configured {
        Some(p) => (join_path(project_dir, p.as_str()), None),
        None => {
            let state = join_path(project_dir, "state");
            let legacy = join_path(project_dir, ".govbot");
            (join_path(state.as_str(), file.as_str()), Some(join_path(legacy.as_str(), file.as_str())))
        },
    }
}

/// The record ids in a ledger file: one per line, trimmed, blank lines
/// skipped.
pub fn ledger_ids(contents: &str) -> (r: Vec<String>)
    ensures
        views(r@) == trimmed_nonempty(split(contents@, "\n"@)),
{
    proof {
        reveal_strlit("\n");
    }
    split_trimmed(contents, "\n")
}

/// The posts not yet in the ledger, in order.
pub open spec fn pending_spec(posts: Seq<Seq<char>>, ledger: Seq<Seq<char>>) -> Seq<int>
    decreases posts.len(),
{
    if posts.len() == 0 {
        Seq::empty()
    } else if ledger.contains(posts.last()) {
        pending_spec(posts.drop_last(), ledger)
    } else {
        pending_spec(posts.drop_last(), ledger).push(posts.len() - 1)
    }
}

// ------------------------------------------------------------------
// One post per bill
// ------------------------------------------------------------------

/// Of the records for bill `ids[i]`, `i` is the one to post: no record of
/// the same bill ranks higher, and none ranking the same comes earlier.
pub open spec fn best_of_bill(ids: Seq<Seq<char>>, rank: Seq<u64>, i: int) -> bool {
    0 <= i < ids.len() && forall|j: int|
        0 <= j < ids.len() && ids[j] == ids[i] ==> rank[j] < rank[i] || (rank[j] == rank[i] && i
            <= j)
}

/// The best record of the bill `key` among `ids`, found by a scan that
/// keeps a candidate beating every record of that bill seen so far.
proof fn lemma_best_exists(
    ids: Seq<Seq<char>>,
    rank: Seq<u64>,
    key: Seq<char>,
    cand: int,
    k: int,
) -> (m: int)
    requires
        ids.len() == rank.len(),
        0 <= cand < ids.len(),
        ids[cand] == key,
        0 <= k <= ids.len(),
        forall|i: int|
            0 <= i < k && ids[i] == key ==> rank[i] < rank[cand] || (rank[i] == rank[cand] && cand
                <= i),
    ensures
        ids[m] == key,
        best_of_bill(ids, rank, m),
    decreases ids.len() - k,
{
    if k == ids.len() {
        cand
    } else if ids[k] == key && (rank[k] > rank[cand] || (rank[k] == rank[cand] && k < cand)) {
        lemma_best_exists(ids, rank, key, k, k + 1)
    } else {
        lemma_best_exists(ids, rank, key, cand, k + 1)
    }
}

/// Two best records of one bill are the same record.
proof fn lemma_best_unique(ids: Seq<Seq<char>>, rank: Seq<u64>, a: int, b: int)
    requires
        best_of_bill(ids, rank, a),
        best_of_bill(ids, rank, b),
        ids[a] == ids[b],
    ensures
        a == b,
{
}

/// Some kept record is of the bill `key`.
pub open spec fn bill_kept(ids: Seq<Seq<char>>, r: Seq<usize>, key: Seq<char>) -> bool {
    exists|k: int| 0 <= k < r.len() && ids[#[trigger] r[k] as int] == key
}

/// Keeps one record per bill: for each bill, the record that ranks highest
/// (the earliest of equals), in input order. `rank[i]` orders the records by
/// their best score (higher is better). Every bill is kept, and no bill
/// twice.
pub fn best_per_bill(ids: &Vec<String>, rank: &Vec<u64>) -> (r: Vec<usize>)
    requires
        ids.len() == rank.len(),
    ensures
        forall|k: int| 0 <= k < r.len() ==> best_of_bill(views(ids@), rank@, #[trigger] r@[k] as int),
        forall|i: int| best_of_bill(views(ids@), rank@, i) ==> #[trigger] r@.contains(i as usize),
        forall|a: int, b: int| 0 <= a < b < r.len() ==> #[trigger] r@[a] < #[trigger] r@[b],
        forall|a: int, b: int|
            0 <= a < b < r.len() ==> ids@[#[trigger] r@[a] as int]@ != ids@[#[trigger] r@[b] as int]@,
        forall|j: int| 0 <= j < ids.len() ==> #[trigger] bill_kept(views(ids@), r@, ids@[j]@),
{
    let ghost iv = views(ids@);
    let n = ids.len();
    let mut out: Vec<usize> = Vec::new();
    let mut i: usize = 0;
    while i < n
        invariant
            i <= n,
            n == ids.len(),
            n == rank.len(),
            iv == views(ids@),
            forall|k: int| 0 <= k < out.len() ==> #[trigger] out@[k] < i,
            forall|k: int| 0 <= k < out.len() ==> best_of_bill(iv, rank@, #[trigger] out@[k] as int),
            forall|x: int| 0 <= x < i && best_of_bill(iv, rank@, x) ==> #[trigger] out@.contains(
                x as usize,
            ),
            forall|a: int, b: int| 0 <= a < b < out.len() ==> #[trigger] out@[a] < #[trigger] out@[b],
        decreases n - i,
    {
        let mut best = true;
        let mut j: usize = 0;
        while j < n
            invariant
                j <= n,
                i < n,
                n == ids.len(),
                n == rank.len(),
                iv == views(ids@),
                best == forall|m: int|
                    0 <= m < j && iv[m] == iv[i as int] ==> rank@[m] < rank@[i as int] || (rank@[m]
                        == rank@[i as int] && i <= m),
            decreases n - j,
        {
            proof {
                assert(iv[j as int] == ids@[j as int]@);
                assert(iv[i as int] == ids@[i as int]@);
            }
            if str_eq(ids[j].as_str(), ids[i].as_str()) {
                if rank[j] > rank[i] || (rank[j] == rank[i] && j < i) {
                    best = false;
                }
            }
            j = j + 1;
        }
        if best {
            let ghost before = out@;
            out.push(i);
            proof {
                assert forall|x: int| 0 <= x < i + 1 && best_of_bill(iv, rank@, x) implies #[trigger] out@.contains(
                    x as usize,
                ) by {
                    if x < i {
                        assert(before.contains(x as usize));
                        let k = choose|k: int| 0 <= k < before.len() && before[k] == x as usize;
                        assert(out@[k] == x as usize);
                    } else {
                        assert(out@[before.len() as int] == x as usize);
                    }
                }
            }
        } else {
            proof {
                assert(!best_of_bill(iv, rank@, i as int));
            }
        }
        i = i + 1;
    }
    proof {
        assert forall|i: int| best_of_bill(iv, rank@, i) implies #[trigger] out@.contains(i as usize) by {}
        assert forall|a: int, b: int| 0 <= a < b < out.len() implies ids@[#[trigger] out@[a] as int]@
            != ids@[#[trigger] out@[b] as int]@ by {
            assert(iv[out@[a] as int] == ids@[out@[a] as int]@);
            assert(iv[out@[b] as int] == ids@[out@[b] as int]@);
            if iv[out@[a] as int] == iv[out@[b] as int] {
                lemma_best_unique(iv, rank@, out@[a] as int, out@[b] as int);
            }
        }
        assert forall|j: int| 0 <= j < ids.len() implies #[trigger] bill_kept(iv, out@, ids@[j]@) by {
            let m = lemma_best_exists(iv, rank@, iv[j], j, 0);
            assert(out@.contains(m as usize));
            let k = choose|k: int| 0 <= k < out.len() && out@[k] == m as usize;
            assert(iv[j] == ids@[j]@);
            assert(iv[out@[k] as int] == ids@[j]@);
        }
    }
    out
}

/// Posting the pending records of a list with one record per bill posts
/// no bill twice in a run.
pub proof fn law_no_bill_posted_twice(posts: Seq<Seq<char>>, ledger: Seq<Seq<char>>)
    requires
        forall|a: int, b: int| 0 <= a < b < posts.len() ==> posts[a] != posts[b],
    ensures
        forall|a: int, b: int|
            0 <= a < b < pending_spec(posts, ledger).len() ==> posts[#[trigger] pending_spec(
                posts,
                ledger,
            )[a]] != posts[#[trigger] pending_spec(posts, ledger)[b]],
{
    law_pending_excludes_posted(posts, ledger);
    let p = pending_spec(posts, ledger);
    assert forall|a: int, b: int| 0 <= a < b < p.len() implies posts[#[trigger] p[a]] != posts[#[trigger] p[b]] by {
        assert(p[a] < p[b]);
    }
}

/// The positions of the posts whose ids are not in the ledger, in order.
pub fn pending_posts(post_ids: &Vec<String>, ledger: &Vec<String>) -> (r: Vec<usize>)
    ensures
        r@.map_values(|i: usize| i as int) == pending_spec(views(post_ids@), views(ledger@)),
{
    let ghost pv = views(post_ids@);
    let ghost lv = views(ledger@);
    let mut out: Vec<usize> = Vec::new();
    let mut i: usize = 0;
    proof {
        assert(pv.take(0) =~= Seq::<Seq<char>>::empty());
    }
    while i < post_ids.len()
        invariant
            i <= post_ids.len(),
            pv == views(post_ids@),
            lv == views(ledger@),
            out@.map_values(|i: usize| i as int) == pending_spec(pv.take(i as int), lv),
        decreases post_ids.len() - i,
    {
        proof {
            assert(pv.take(i + 1).drop_last() =~= pv.take(i as int));
            assert(pv.take(i + 1).last() == post_ids@[i as int]@);
        }
        let mut found = false;
        let mut k: usize = 0;
        while k < ledger.len()
            invariant
                k <= ledger.len(),
                i < post_ids.len(),
                lv == views(ledger@),
                found == exists|m: int| 0 <= m < k && #[trigger] lv[m] == post_ids@[i as int]@,
            decreases ledger.len() - k,
        {
            if str_eq(ledger[k].as_str(), post_ids[i].as_str()) {
                found = true;
            }
            proof {
                assert(lv[k as int] == ledger@[k as int]@);
                if exists|m: int| 0 <= m < k && #[trigger] lv[m] == post_ids@[i as int]@ {
                    let m = choose|m: int| 0 <= m < k && #[trigger] lv[m] == post_ids@[i as int]@;
                    assert(0 <= m < k + 1);
                }
            }
            k = k + 1;
        }
        proof {
            assert(found == lv.contains(pv.take(i + 1).last()));
        }
        if !found {
            let ghost before = out@;
            out.push(i);
            proof {
                assert(out@.map_values(|i: usize| i as int) =~= before.map_values(
                    |i: usize| i as int,
                ).push(i as int));
                assert(pv.take(i + 1).len() - 1 == i);
            }
        }
        i = i + 1;
    }
    proof {
        assert(pv.take(pv.len() as int) =~= pv);
    }
    out
}

/// A pending post is never one already in the ledger, every post not in
/// the ledger is pending, and the pending posts keep their order.
pub proof fn law_pending_excludes_posted(posts: Seq<Seq<char>>, ledger: Seq<Seq<char>>)
    ensures
        forall|k: int|
            0 <= k < pending_spec(posts, ledger).len() ==> 0 <= #[trigger] pending_spec(
                posts,
                ledger,
            )[k] < posts.len() && !ledger.contains(posts[pending_spec(posts, ledger)[k]]),
        forall|j: int|
            0 <= j < posts.len() && !ledger.contains(#[trigger] posts[j]) ==> pending_spec(
                posts,
                ledger,
            ).contains(j),
        forall|a: int, b: int|
            0 <= a < b < pending_spec(posts, ledger).len() ==> #[trigger] pending_spec(
                posts,
                ledger,
            )[a] < #[trigger] pending_spec(posts, ledger)[b],
    decreases posts.len(),
{
    if posts.len() > 0 {
        let p = posts.drop_last();
        law_pending_excludes_posted(p, ledger);
        let r = pending_spec(p, ledger);
        assert forall|k: int| 0 <= k < r.len() implies #[trigger] posts[r[k]] == p[r[k]] by {}
        if !ledger.contains(posts.last()) {
            let n = r.push(posts.len() - 1);
            assert forall|k: int| 0 <= k < n.len() implies 0 <= #[trigger] n[k] < posts.len()
                && !ledger.contains(posts[n[k]]) by {
                if k < r.len() {
                    assert(n[k] == r[k]);
                    assert(posts[r[k]] == p[r[k]]);
                }
            }
            assert forall|j: int| 0 <= j < posts.len() && !ledger.contains(
                #[trigger] posts[j],
            ) implies n.contains(j) by {
                if j < p.len() {
                    assert(p[j] == posts[j]);
                    assert(r.contains(j));
                    let k = choose|k: int| 0 <= k < r.len() && r[k] == j;
                    assert(n[k] == j);
                } else {
                    assert(n[r.len() as int] == j);
                }
            }
            assert forall|a: int, b: int| 0 <= a < b < n.len() implies #[trigger] n[a]
                < #[trigger] n[b] by {
                assert(n[a] == r[a]);
                if b < r.len() {
                    assert(n[b] == r[b]);
                }
            }
        } else {
            assert forall|k: int| 0 <= k < r.len() implies 0 <= #[trigger] r[k] < posts.len()
                && !ledger.contains(posts[r[k]]) by {
                assert(posts[r[k]] == p[r[k]]);
            }
            assert forall|j: int| 0 <= j < posts.len() && !ledger.contains(
                #[trigger] posts[j],
            ) implies r.contains(j) by {
                if j < p.len() {
                    assert(p[j] == posts[j]);
                } else {
                    assert(posts[j] == posts.last());
                }
            }
        }
    }
}

/// The ids of the pending posts, in order: what a run appends to the ledger
/// when every post goes through.
pub open spec fn pending_ids(posts: Seq<Seq<char>>, ledger: Seq<Seq<char>>) -> Seq<Seq<char>> {
    Seq::new(pending_spec(posts, ledger).len(), |k: int| posts[pending_spec(posts, ledger)[k]])
}

/// A re-run never double-posts: once the ids of every pending post have been
/// appended to the ledger, the same posts leave nothing pending.
pub proof fn law_rerun_after_posting_is_empty(posts: Seq<Seq<char>>, ledger: Seq<Seq<char>>)
    ensures
        pending_spec(posts, ledger + pending_ids(posts, ledger)).len() == 0,
{
    let r = pending_spec(posts, ledger);
    let appended = pending_ids(posts, ledger);
    let l2 = ledger + appended;
    law_pending_excludes_posted(posts, ledger);
    law_pending_excludes_posted(posts, l2);
    let r2 = pending_spec(posts, l2);
    if r2.len() > 0 {
        let idx = r2[0];
        assert(0 <= idx < posts.len() && !l2.contains(posts[idx]));
        if ledger.contains(posts[idx]) {
            let m = choose|m: int| 0 <= m < ledger.len() && ledger[m] == posts[idx];
            assert(l2[m] == posts[idx]);
        } else {
            assert(r.contains(idx));
            let k = choose|k: int| 0 <= k < r.len() && r[k] == idx;
            assert(appended[k] == posts[idx]);
            assert(l2[ledger.len() + k] == posts[idx]);
        }
    }
}

// ------------------------------------------------------------------
// XRPC requests and responses
// ------------------------------------------------------------------

fn str_entry(k: &str, v: &str) -> (r: (String, Json))
    ensures
        r.0@ == k@,
        r.1@ == JsonV::Str(v@),
{
    (copy_str(k), Json::Str(copy_str(v)))
}

/// The body of `com.atproto.server.createSession`.
pub open spec fn session_request_spec(handle: Seq<char>, password: Seq<char>) -> JsonV {
    JsonV::Object(seq![("identifier"@, JsonV::Str(handle)), ("password"@, JsonV::Str(password))])
}

pub fn session_request(handle: &str, password: &str) -> (r: Json)
    ensures
        r@ == session_request_spec(handle@, password@),
{
    let mut m: Vec<(String, Json)> = Vec::new();
    m.push(str_entry("identifier", handle));
    m.push(str_entry("password", password));
    proof {
        lemma_jvo_index(m@);
        assert(jvo(m@) =~= seq![("identifier"@, JsonV::Str(handle@)), ("password"@, JsonV::Str(password@))]);
    }
    Json::Object(m)
}

/// The body of `com.atproto.repo.createRecord` for one post.
pub open spec fn post_request_spec(did: Seq<char>, text: Seq<char>, created_at: Seq<char>) -> JsonV {
    JsonV::Object(
        seq![
            ("repo"@, JsonV::Str(did)),
            ("collection"@, JsonV::Str("app.bsky.feed.post"@)),
            (
                "record"@,
                JsonV::Object(
                    seq![
                        ("$type"@, JsonV::Str("app.bsky.feed.post"@)),
                        ("text"@, JsonV::Str(text)),
                        ("createdAt"@, JsonV::Str(created_at)),
                    ],
                ),
            ),
        ],
    )
}

pub fn post_request(did: &str, text: &str, created_at: &str) -> (r: Json)
    ensures
        r@ == post_request_spec(did@, text@, created_at@),
{
    let mut rec: Vec<(String, Json)> = Vec::new();
    rec.push(str_entry("$type", "app.bsky.feed.post"));
    rec.push(str_entry("text", text));
    rec.push(str_entry("createdAt", created_at));
    proof {
        lemma_jvo_index(rec@);
        assert(jvo(rec@) =~= seq![
            ("$type"@, JsonV::Str("app.bsky.feed.post"@)),
            ("text"@, JsonV::Str(text@)),
            ("createdAt"@, JsonV::Str(created_at@)),
        ]);
    }
    let record = Json::Object(rec);
    let mut m: Vec<(String, Json)> = Vec::new();
    m.push(str_entry("repo", did));
    m.push(str_entry("collection", "app.bsky.feed.post"));
    m.push((copy_str("record"), record));
    proof {
        lemma_jvo_index(m@);
        assert(jvo(m@) =~= seq![
            ("repo"@, JsonV::Str(did@)),
            ("collection"@, JsonV::Str("app.bsky.feed.post"@)),
            ("record"@, m@[2].1@),
        ]);
    }
    Json::Object(m)
}

/// An authenticated session.
pub struct Session {
    /// The bearer token (`accessJwt`).
    pub access_jwt: String,
    /// The repo DID, the owner of created records.
    pub did: String,
    /// The account handle.
    pub handle: String,
}

/// Read a `createSession` response: `accessJwt` and `did` are required;
/// the handle defaults to the one logged in with.
pub fn session_from_response(body: &Json, handle: &str) -> (r: Result<Session, String>)
    ensures
        match (str_opt(get(body@, "accessJwt"@)), str_opt(get(body@, "did"@))) {
            (None, _) => r matches Err(m) && m@ == "createSession response missing accessJwt"@,
            (Some(_), None) => r matches Err(m) && m@ == "createSession response missing did"@,
            (Some(a), Some(d)) => r matches Ok(s) && s.access_jwt@ == a && s.did@ == d
                && s.handle@ == match str_opt(get(body@, "handle"@)) {
                Some(h) => h,
                None => handle@,
            },
        },
{
    let access_jwt = match body.get("accessJwt") {
        Some(v) => match v.as_str() {
            Some(s) => copy_str(s),
            None => return Err(copy_str("createSession response missing accessJwt")),
        },
        None => return Err(copy_str("createSession response missing accessJwt")),
    };
    let did = match body.get("did") {
        Some(v) => match v.as_str() {
            Some(s) => copy_str(s),
            None => return Err(copy_str("createSession response missing did")),
        },
        None => return Err(copy_str("createSession response missing did")),
    };
    let h = match body.get("handle") {
        Some(v) => match v.as_str() {
            Some(s) => copy_str(s),
            None => copy_str(handle),
        },
        None => copy_str(handle),
    };
    Ok(Session { access_jwt, did, handle: h })
}

/// The AT URI a `createRecord` response reports, or `<unknown>`.
pub fn post_uri(body: &Json) -> (r: String)
    ensures
        r@ == match str_opt(get(body@, "uri"@)) {
            Some(u) => u,
            None => "<unknown>"@,
        },
{
    match body.get("uri") {
        Some(v) => match v.as_str() {
            Some(s) => copy_str(s),
            None => copy_str("<unknown>"),
        },
        None => copy_str("<unknown>"),
    }
}

/// The session a `createSession` response body (its text) gives: the
/// parse error when the body is no JSON value, else as `session_from_response`.
pub fn session_from_response_text(body: &str, handle: &str) -> (r: Result<Session, String>)
    ensures
        match json_text_value(body@) {
            None => r is Err,
            Some(v) => match (str_opt(get(v, "accessJwt"@)), str_opt(get(v, "did"@))) {
                (None, _) => r matches Err(m) && m@ == "createSession response missing accessJwt"@,
                (Some(_), None) => r matches Err(m) && m@ == "createSession response missing did"@,
                (Some(a), Some(d)) => r matches Ok(s) && s.access_jwt@ == a && s.did@ == d
                    && s.handle@ == match str_opt(get(v, "handle"@)) {
                    Some(h) => h,
                    None => handle@,
                },
            },
        },
{
    let v = parse_json_text(body)?;
    session_from_response(&v, handle)
}

/// The AT URI a `createRecord` response body (its text) reports, or
/// `<unknown>` when the body is no JSON value or carries none.
pub fn post_uri_from_text(body: &str) -> (r: String)
    ensures
        r@ == match json_text_value(body@) {
            Some(v) => match str_opt(get(v, "uri"@)) {
                Some(u) => u,
                None => "<unknown>"@,
            },
            None => "<unknown>"@,
        },
{
    match parse_json_text(body) {
        Ok(v) => post_uri(&v),
        Err(_) => copy_str("<unknown>"),
    }
}

/// A required credential: its value when set and not blank, else an
/// error naming the variable.
pub fn require_credential(key: &str, value: Option<&str>) -> (r: Result<String, String>)
    ensures
        match value {
            Some(v) if !all_ws(v@) => r matches Ok(s) && s@ == v@,
            _ => r matches Err(m) && m@ == "the `bluesky` publisher needs the "@ + key@
                + " environment variable. Set BLUESKY_HANDLE and BLUESKY_APP_PASSWORD (an app password from Bluesky Settings \u{2192} App Passwords). Never put credentials in govbot.yml."@,
        },
{
    match value {
        Some(v) => if !is_blank(v) {
            return Ok(copy_str(v));
        },
        None => {},
    }
    Err(
        crate::text::concat3(
            "the `bluesky` publisher needs the ",
            key,
            " environment variable. Set BLUESKY_HANDLE and BLUESKY_APP_PASSWORD (an app password from Bluesky Settings \u{2192} App Passwords). Never put credentials in govbot.yml.",
        ),
    )
}

// ------------------------------------------------------------------
// The run
// ------------------------------------------------------------------

/// What a `bluesky` run does once its posts are rendered.
pub enum BlueskyStep {
    /// No record cleared the threshold.
    NothingToPost,
    /// Show the pending posts; touch no network and no ledger.
    DryRun,
    /// Every matching record was posted before.
    AllPosted,
    /// Credentials are missing: skip with a warning.
    MissingCredentials,
    /// Authenticate and post the pending records.
    Post,
}

/// The step for `cleared` rendered posts of which `pending` are not yet in
/// the ledger.
pub fn bluesky_step(cleared: usize, pending: usize, dry_run: bool, creds: bool) -> (r: BlueskyStep)
    ensures
        cleared == 0 ==> r is NothingToPost,
        cleared > 0 && dry_run ==> r is DryRun,
        cleared > 0 && !dry_run && pending == 0 ==> r is AllPosted,
        cleared > 0 && !dry_run && pending > 0 && !creds ==> r is MissingCredentials,
        cleared > 0 && !dry_run && pending > 0 && creds ==> r is Post,
{
    if cleared == 0 {
        BlueskyStep::NothingToPost
    } else if dry_run {
        BlueskyStep::DryRun
    } else if pending == 0 {
        BlueskyStep::AllPosted
    } else if !creds {
        BlueskyStep::MissingCredentials
    } else {
        BlueskyStep::Post
    }
}

/// The dry-run report: how many records cleared the threshold, were posted
/// before, and would be posted.
pub fn dry_run_header(name: &str, cleared: usize, pending: usize) -> (r: String)
    requires
        pending <= cleared,
    ensures
        r@ == "Publisher '"@ + name@ + "' (bluesky) --dry-run: "@ + decimal(cleared as nat)
            + " record(s) cleared the threshold, "@ + decimal((cleared - pending) as nat)
            + " already posted, "@ + decimal(pending as nat)
            + " would be posted. No network, no ledger writes."@,
{
    let a = usize_to_string(cleared);
    let b = usize_to_string(cleared - pending);
    let c = usize_to_string(pending);
    let mut t = crate::wizard::TextBuilder::new();
    t.add("Publisher '");
    t.add(name);
    t.add("' (bluesky) --dry-run: ");
    t.add(a.as_str());
    t.add(" record(s) cleared the threshold, ");
    t.add(b.as_str());
    t.add(" already posted, ");
    t.add(c.as_str());
    t.add(" would be posted. No network, no ledger writes.");
    t.text
}

/// One pending post as the dry run shows it: a header line, the text, and
/// a blank line.
pub fn dry_run_post(i: usize, n: usize, id: &str, text: &str) -> (r: String)
    requires
        i < n,
    ensures
        r@ == "--- post "@ + decimal((i + 1) as nat) + " of "@ + decimal(n as nat) + " (id: "@
            + id@ + ") ---\n"@ + text@ + "\n\n"@,
{
    let a = usize_to_string(i + 1);
    let b = usize_to_string(n);
    let mut t = crate::wizard::TextBuilder::new();
    t.add("--- post ");
    t.add(a.as_str());
    t.add(" of ");
    t.add(b.as_str());
    t.add(" (id: ");
    t.add(id);
    t.add(") ---\n");
    t.add(text);
    t.add("\n\n");
    t.text
}

/// The error that stops a run at the first failed post.
pub fn post_failure_message(name: &str, posted: usize, pending: usize, id: &str, error: &str) -> (r:
    String)
    ensures
        r@ == "Publisher '"@ + name@ + "' (bluesky): posted "@ + decimal(posted as nat) + "/"@
            + decimal(pending as nat) + " record(s); failed on "@ + id@ + ": "@ + error@,
{
    let a = usize_to_string(posted);
    let b = usize_to_string(pending);
    let mut t = crate::wizard::TextBuilder::new();
    t.add("Publisher '");
    t.add(name);
    t.add("' (bluesky): posted ");
    t.add(a.as_str());
    t.add("/");
    t.add(b.as_str());
    t.add(" record(s); failed on ");
    t.add(id);
    t.add(": ");
    t.add(error);
    t.text
}

} // verus!
