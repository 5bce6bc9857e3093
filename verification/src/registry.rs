//! The dataset registry: dataset identifiers resolved to the git repo that
//! holds their data.
//!
//! A canonical identifier is `namespace/name[@channel]`. A bare identifier
//! (no `/`) is resolved against the registry's default namespace, and `all`
//! stands for every dataset, in canonical id order.
use vstd::prelude::*;
use crate::error::Error;
use crate::route::opt_view;
use crate::smap::{StrMap, keys_of, keys_sorted, lemma_lookup_sorted, lookup_key};
use crate::text::{
    after_last, after_last_str, chars_of, concat3, contains, contains_str, copy_str,
    eq_ignore_ascii_case, eq_ignore_ascii_case_str, find, find_exec, lemma_find_props, lowercase,
    starts_with_str, is_prefix, occurs_at, string_from, to_lowercase_str, trim, trim_str, views,
    lemma_find_first, trim_start, trim_end,
};

verus! {

/// Where a dataset's data lives and how to read it.
pub struct DatasetEntry {
    /// The git repository the data is cloned from.
    pub git_url: String,
    /// The data schema (e.g. `ocdfiles`).
    pub schema: Option<String>,
    /// A glob locating records within the repo.
    pub path_pattern: Option<String>,
    /// A display name (`Wyoming`).
    pub name: Option<String>,
}

pub struct DatasetEntryView {
    pub git_url: Seq<char>,
    pub schema: Option<Seq<char>>,
    pub path_pattern: Option<Seq<char>>,
    pub name: Option<Seq<char>>,
}

impl View for DatasetEntry {
    type V = DatasetEntryView;

    open spec fn view(&self) -> DatasetEntryView {
        DatasetEntryView {
            git_url: self.git_url@,
            schema: opt_view(self.schema),
            path_pattern: opt_view(self.path_pattern),
            name: opt_view(self.name),
        }
    }
}

pub fn copy_opt(o: &Option<String>) -> (r: Option<String>)
    ensures
        opt_view(r) == opt_view(*o),
{
    match o {
        Some(s) => Some(copy_str(s.as_str())),
        None => None,
    }
}

impl DatasetEntry {
    /// A copy of the entry.
    pub fn copy(&self) -> (r: DatasetEntry)
        ensures
            r@ == self@,
    {
        DatasetEntry {
            git_url: copy_str(self.git_url.as_str()),
            schema: copy_opt(&self.schema),
            path_pattern: copy_opt(&self.path_pattern),
            name: copy_opt(&self.name),
        }
    }
}

/// A resolved dataset: its canonical id, the requested channel, its entry.
pub struct ResolvedDataset {
    /// The canonical `namespace/name` (channel stripped).
    pub id: String,
    /// The channel (branch) requested with `@channel`.
    pub channel: Option<String>,
    pub entry: DatasetEntry,
}

pub struct ResolvedView {
    pub id: Seq<char>,
    pub channel: Option<Seq<char>>,
    pub entry: DatasetEntryView,
}

impl View for ResolvedDataset {
    type V = ResolvedView;

    open spec fn view(&self) -> ResolvedView {
        ResolvedView { id: self.id@, channel: opt_view(self.channel), entry: self.entry@ }
    }
}

pub open spec fn resolved_views(v: Seq<ResolvedDataset>) -> Seq<ResolvedView> {
    v.map_values(|d: ResolvedDataset| d@)
}

impl ResolvedDataset {
    /// The short, slash-free name a clone directory is keyed on (`wy`).
    pub fn short_name(&self) -> (r: String)
        ensures
            r@ == after_last(self.id@, "/"@),
    {
        after_last_str(self.id.as_str(), "/")
    }
}

/// The namespace a bare identifier resolves against when a registry names
/// none.
pub fn default_namespace() -> (r: String)
    ensures
        r@ == "us-legislation"@,
{
    copy_str("us-legislation")
}

/// The parsed registry.
pub struct Registry {
    pub schema_version: Option<String>,
    pub description: Option<String>,
    /// The namespace a bare (slash-free) identifier resolves against.
    pub default_namespace: String,
    /// Canonical `namespace/name` → entry, in id order.
    pub datasets: StrMap<DatasetEntry>,
}

/// `(canonical id, channel)` of an identifier: split at the first `@`;
/// a base without `/` is placed in the default namespace.
pub open spec fn canonical(ns: Seq<char>, ident: Seq<char>) -> (Seq<char>, Option<Seq<char>>) {
    let (base, channel) = match find(ident, "@"@) {
        Some(i) => (ident.take(i), Some(ident.skip(i + 1))),
        None => (ident, None),
    };
    let id = if contains(base, "/"@) {
        base
    } else {
        ns + "/"@ + base
    };
    (id, channel)
}

/// The message of an unknown identifier.
pub open spec fn unknown_message(ident: Seq<char>) -> Seq<char> {
    "Unknown dataset '"@ + ident
        + "'. It is not in the registry. Run `govbot search` to list available datasets."@
}

/// The entries of a registry, as views.
pub open spec fn entries_view(c: Seq<(Seq<char>, DatasetEntry)>) -> Seq<(Seq<char>, DatasetEntryView)> {
    c.map_values(|e: (Seq<char>, DatasetEntry)| (e.0, e.1@))
}

/// What resolving `ident` gives: the dataset, or the unknown-id message.
pub open spec fn resolve_spec(ns: Seq<char>, c: Seq<(Seq<char>, DatasetEntry)>, ident: Seq<char>) -> Result<
    ResolvedView,
    Seq<char>,
> {
    let (id, channel) = canonical(ns, ident);
    match lookup_key(c, id) {
        Some(e) => Ok(ResolvedView { id, channel, entry: e@ }),
        None => Err(unknown_message(ident)),
    }
}

/// Each of `keys` resolved, in order; the first failure stops it.
pub open spec fn resolve_keys(ns: Seq<char>, c: Seq<(Seq<char>, DatasetEntry)>, keys: Seq<Seq<char>>) -> Result<
    Seq<ResolvedView>,
    Seq<char>,
>
    decreases keys.len(),
{
    if keys.len() == 0 {
        Ok(Seq::empty())
    } else {
        match resolve_keys(ns, c, keys.drop_last()) {
            Err(e) => Err(e),
            Ok(prev) => match resolve_spec(ns, c, keys.last()) {
                Ok(d) => Ok(prev.push(d)),
                Err(e) => Err(e),
            },
        }
    }
}

/// A list of identifiers resolved in order: each trimmed, blanks skipped,
/// `all` (any case) expanded to every dataset in id order; the first
/// failure stops it.
pub open spec fn resolve_all_spec(
    ns: Seq<char>,
    c: Seq<(Seq<char>, DatasetEntry)>,
    idents: Seq<Seq<char>>,
) -> Result<Seq<ResolvedView>, Seq<char>>
    decreases idents.len(),
{
    if idents.len() == 0 {
        Ok(Seq::empty())
    } else {
        match resolve_all_spec(ns, c, idents.drop_last()) {
            Err(e) => Err(e),
            Ok(prev) => {
                let t = trim(idents.last());
                if t.len() == 0 {
                    Ok(prev)
                } else if eq_ignore_ascii_case(t, "all"@) {
                    match resolve_keys(ns, c, keys_of(c)) {
                        Ok(v) => Ok(prev + v),
                        Err(e) => Err(e),
                    }
                } else {
                    match resolve_spec(ns, c, t) {
                        Ok(d) => Ok(prev.push(d)),
                        Err(e) => Err(e),
                    }
                }
            },
        }
    }
}

/// Every dataset, in id order, with no channel.
pub open spec fn all_spec(c: Seq<(Seq<char>, DatasetEntry)>) -> Seq<ResolvedView> {
    c.map_values(|e: (Seq<char>, DatasetEntry)| ResolvedView { id: e.0, channel: None, entry: e.1@ })
}

/// True when a dataset matches a (trimmed, lower-cased) query: a blank
/// query matches everything; otherwise the lower-cased id or name must
/// contain it.
pub open spec fn search_matches(q: Seq<char>, d: ResolvedView) -> bool {
    q.len() == 0 || contains(lowercase(d.id), q) || match d.entry.name {
        Some(n) => contains(lowercase(n), q),
        None => false,
    }
}

/// The datasets of `ds` that match `q`, in order.
pub open spec fn search_filter(q: Seq<char>, ds: Seq<ResolvedView>) -> Seq<ResolvedView>
    decreases ds.len(),
{
    if ds.len() == 0 {
        Seq::empty()
    } else if search_matches(q, ds.last()) {
        search_filter(q, ds.drop_last()).push(ds.last())
    } else {
        search_filter(q, ds.drop_last())
    }
}

/// Where a registry is read from.
pub enum RegistrySource {
    /// Fetched over HTTP (and cached).
    Url(String),
    /// Read from a file.
    File(String),
}

impl Registry {
    /// The entries, in id order.
    pub open spec fn contents(&self) -> Seq<(Seq<char>, DatasetEntry)> {
        self.datasets.contents()
    }

    /// Where `src` points: an `http://` or `https://` URL is fetched;
    /// anything else is a file path.
    pub fn from_source(src: &str) -> (r: RegistrySource)
        ensures
            match r {
                RegistrySource::Url(u) => u@ == src@ && (is_prefix("http://"@, src@) || is_prefix(
                    "https://"@,
                    src@,
                )),
                RegistrySource::File(p) => p@ == src@ && !is_prefix("http://"@, src@)
                    && !is_prefix("https://"@, src@),
            },
    {
        if starts_with_str(src, "http://") || starts_with_str(src, "https://") {
            RegistrySource::Url(copy_str(src))
        } else {
            RegistrySource::File(copy_str(src))
        }
    }

    /// Canonicalize an identifier to `(namespace/name, channel)`.
    pub fn canonical_id(&self, identifier: &str) -> (r: (String, Option<String>))
        ensures
            (r.0@, opt_view(r.1)) == canonical(self.default_namespace@, identifier@),
    {
        let iv = chars_of(identifier);
        let at = chars_of("@");
        proof {
            lemma_find_props(iv@, at@);
            reveal_strlit("@");
        }
        let (base, channel) = match find_exec(&iv, &at) {
            Some(i) => {
                assert(i + 1 <= iv.len());
                let b = string_from(&iv, 0, i);
                let c = string_from(&iv, i + 1, iv.len());
                proof {
                    assert(iv@.subrange(0, i as int) =~= identifier@.take(i as int));
                    assert(iv@.subrange(i + 1, iv@.len() as int) =~= identifier@.skip(i + 1));
                }
                (b, Some(c))
            },
            None => (copy_str(identifier), None),
        };
        let id = if contains_str(base.as_str(), "/") {
            base
        } else {
            concat3(self.default_namespace.as_str(), "/", base.as_str())
        };
        (id, channel)
    }

    /// Resolve an identifier to its dataset; `Error::Config` when it is not
    /// in the registry.
    pub fn resolve(&self, identifier: &str) -> (r: Result<ResolvedDataset, Error>)
        ensures
            match r {
                Ok(d) => resolve_spec(self.default_namespace@, self.contents(), identifier@)
                    == Ok::<ResolvedView, Seq<char>>(d@),
                Err(Error::Config(m)) => resolve_spec(
                    self.default_namespace@,
                    self.contents(),
                    identifier@,
                ) == Err::<ResolvedView, Seq<char>>(m@),
            },
    {
        let (id, channel) = self.canonical_id(identifier);
        match self.datasets.get(id.as_str()) {
            Some(e) => Ok(ResolvedDataset { id, channel, entry: e.copy() }),
            None => {
                let m = concat3(
                    "Unknown dataset '",
                    identifier,
                    "'. It is not in the registry. Run `govbot search` to list available datasets.",
                );
                Err(Error::Config(m))
            },
        }
    }

    fn resolve_every_key(&self, out: &mut Vec<ResolvedDataset>) -> (r: Result<(), Error>)
        ensures
            match r {
                Ok(()) => match resolve_keys(
                    self.default_namespace@,
                    self.contents(),
                    keys_of(self.contents()),
                ) {
                    Ok(v) => resolved_views(final(out)@) == resolved_views(old(out)@) + v,
                    Err(_) => false,
                },
                Err(Error::Config(m)) => resolve_keys(
                    self.default_namespace@,
                    self.contents(),
                    keys_of(self.contents()),
                ) == Err::<Seq<ResolvedView>, Seq<char>>(m@),
            },
    {
        let ghost ns = self.default_namespace@;
        let ghost c = self.contents();
        let ghost keys = keys_of(c);
        let ghost start = resolved_views(out@);
        let n = self.datasets.len();
        let mut i: usize = 0;
        proof {
            assert(keys.take(0) =~= Seq::<Seq<char>>::empty());
            assert(resolved_views(out@) =~= start + Seq::<ResolvedView>::empty());
        }
        while i < n
            invariant
                i <= n,
                n == c.len(),
                c == self.contents(),
                keys == keys_of(c),
                ns == self.default_namespace@,
                match resolve_keys(ns, c, keys.take(i as int)) {
                    Ok(v) => resolved_views(out@) == start + v,
                    Err(_) => false,
                },
            decreases n - i,
        {
            proof {
                assert(keys.take(i + 1).drop_last() =~= keys.take(i as int));
                assert(keys.take(i + 1).last() == c[i as int].0);
            }
            let (k, _) = self.datasets.entry(i);
            match self.resolve(k) {
                Ok(d) => {
                    let ghost before = out@;
                    out.push(d);
                    proof {
                        assert(resolved_views(out@) =~= resolved_views(before).push(d@));
                    }
                },
                Err(e) => {
                    proof {
                        lemma_resolve_keys_err_sticks(ns, c, keys, i as int + 1);
                    }
                    return Err(e);
                },
            }
            i = i + 1;
        }
        proof {
            assert(keys.take(n as int) =~= keys);
        }
        Ok(())
    }

    /// Resolve a list of identifiers in order: each trimmed, blanks
    /// skipped, `all` (any case) expanded to every dataset in id order.
    /// The first identifier that does not resolve makes it fail.
    pub fn resolve_all(&self, identifiers: &[String]) -> (r: Result<Vec<ResolvedDataset>, Error>)
        ensures
            match r {
                Ok(v) => resolve_all_spec(
                    self.default_namespace@,
                    self.contents(),
                    views(identifiers@),
                ) == Ok::<Seq<ResolvedView>, Seq<char>>(resolved_views(v@)),
                Err(Error::Config(m)) => resolve_all_spec(
                    self.default_namespace@,
                    self.contents(),
                    views(identifiers@),
                ) == Err::<Seq<ResolvedView>, Seq<char>>(m@),
            },
    {
        let ghost ns = self.default_namespace@;
        let ghost c = self.contents();
        let ghost ids = views(identifiers@);
        let mut out: Vec<ResolvedDataset> = Vec::new();
        let mut i: usize = 0;
        proof {
            assert(ids.take(0) =~= Seq::<Seq<char>>::empty());
            assert(resolved_views(out@) =~= Seq::<ResolvedView>::empty());
        }
        while i < identifiers.len()
            invariant
                i <= identifiers.len(),
                c == self.contents(),
                ns == self.default_namespace@,
                ids == views(identifiers@),
                resolve_all_spec(ns, c, ids.take(i as int)) == Ok::<
                    Seq<ResolvedView>,
                    Seq<char>,
                >(resolved_views(out@)),
            decreases identifiers.len() - i,
        {
            proof {
                assert(ids.take(i + 1).drop_last() =~= ids.take(i as int));
                assert(ids.take(i + 1).last() == identifiers@[i as int]@);
            }
            let t = trim_str(identifiers[i].as_str());
            if t.unicode_len() == 0 {
            } else if eq_ignore_ascii_case_str(t.as_str(), "all") {
                let ghost before = resolved_views(out@);
                match self.resolve_every_key(&mut out) {
                    Ok(()) => {},
                    Err(e) => {
                        proof {
                            lemma_resolve_all_err_sticks(ns, c, ids, i as int + 1);
                        }
                        return Err(e);
                    },
                }
            } else {
                match self.resolve(t.as_str()) {
                    Ok(d) => {
                        let ghost before = out@;
                        out.push(d);
                        proof {
                            assert(resolved_views(out@) =~= resolved_views(before).push(d@));
                        }
                    },
                    Err(e) => {
                        proof {
                            lemma_resolve_all_err_sticks(ns, c, ids, i as int + 1);
                        }
                        return Err(e);
                    },
                }
            }
            i = i + 1;
        }
        proof {
            assert(ids.take(identifiers@.len() as int) =~= ids);
        }
        Ok(out)
    }

    /// Every dataset in the registry, in canonical id order.
    pub fn all(&self) -> (r: Vec<ResolvedDataset>)
        ensures
            resolved_views(r@) == all_spec(self.contents()),
    {
        let ghost c = self.contents();
        let n = self.datasets.len();
        let mut out: Vec<ResolvedDataset> = Vec::new();
        let mut i: usize = 0;
        while i < n
            invariant
                i <= n,
                n == c.len(),
                c == self.contents(),
                resolved_views(out@) == all_spec(c.take(i as int)),
            decreases n - i,
        {
            let (k, e) = self.datasets.entry(i);
            let ghost before = out@;
            let d = ResolvedDataset { id: copy_str(k), channel: None, entry: e.copy() };
            let ghost dv = d@;
            assert(dv == ResolvedView { id: c[i as int].0, channel: None, entry: c[i as int].1@ });
            out.push(d);
            proof {
                assert(resolved_views(out@) =~= resolved_views(before).push(dv));
                assert(all_spec(c.take(i + 1)) =~= all_spec(c.take(i as int)).push(dv));
            }
            i = i + 1;
        }
        proof {
            assert(c.take(n as int) =~= c);
        }
        out
    }

    /// Search the registry: a blank query lists everything; otherwise the
    /// query (trimmed, lower-cased) must occur in the lower-cased id or name.
    pub fn search(&self, query: &str) -> (r: Vec<ResolvedDataset>)
        ensures
            resolved_views(r@) == search_filter(lowercase(trim(query@)), all_spec(self.contents())),
    {
        let t = trim_str(query);
        let q = to_lowercase_str(t.as_str());
        let all = self.all();
        let ghost av = resolved_views(all@);
        let mut out: Vec<ResolvedDataset> = Vec::new();
        let mut i: usize = 0;
        let mut rest = all;
        let mut taken: Vec<ResolvedDataset> = Vec::new();
        proof {
            assert(av.take(0) =~= Seq::<ResolvedView>::empty());
        }
        while i < rest.len()
            invariant
                i <= rest.len(),
                resolved_views(rest@) == av,
                resolved_views(out@) == search_filter(q@, av.take(i as int)),
            decreases rest.len() - i,
        {
            proof {
                assert(av.take(i + 1).drop_last() =~= av.take(i as int));
                assert(av.take(i + 1).last() == rest@[i as int]@);
            }
            let d = &rest[i];
            let id_low = to_lowercase_str(d.id.as_str());
            let mut hit = q.unicode_len() == 0 || contains_str(id_low.as_str(), q.as_str());
            if !hit {
                match &d.entry.name {
                    Some(n) => {
                        let n_low = to_lowercase_str(n.as_str());
                        hit = contains_str(n_low.as_str(), q.as_str());
                    },
                    None => {},
                }
            }
            if hit {
                let c = ResolvedDataset {
                    id: copy_str(d.id.as_str()),
                    channel: copy_opt(&d.channel),
                    entry: d.entry.copy(),
                };
                let ghost before = out@;
                out.push(c);
                proof {
                    assert(resolved_views(out@) =~= resolved_views(before).push(rest@[i as int]@));
                }
            }
            i = i + 1;
        }
        proof {
            assert(av.take(av.len() as int) =~= av);
        }
        out
    }
}

proof fn lemma_resolve_keys_err_sticks(
    ns: Seq<char>,
    c: Seq<(Seq<char>, DatasetEntry)>,
    keys: Seq<Seq<char>>,
    i: int,
)
    requires
        0 <= i <= keys.len(),
        resolve_keys(ns, c, keys.take(i)) is Err,
    ensures
        resolve_keys(ns, c, keys) == resolve_keys(ns, c, keys.take(i)),
    decreases keys.len() - i,
{
    if i < keys.len() {
        assert(keys.take(i + 1).drop_last() =~= keys.take(i));
        lemma_resolve_keys_err_sticks(ns, c, keys, i + 1);
    } else {
        assert(keys.take(i) =~= keys);
    }
}

proof fn lemma_resolve_all_err_sticks(
    ns: Seq<char>,
    c: Seq<(Seq<char>, DatasetEntry)>,
    ids: Seq<Seq<char>>,
    i: int,
)
    requires
        0 <= i <= ids.len(),
        resolve_all_spec(ns, c, ids.take(i)) is Err,
    ensures
        resolve_all_spec(ns, c, ids) == resolve_all_spec(ns, c, ids.take(i)),
    decreases ids.len() - i,
{
    if i < ids.len() {
        assert(ids.take(i + 1).drop_last() =~= ids.take(i));
        lemma_resolve_all_err_sticks(ns, c, ids, i + 1);
    } else {
        assert(ids.take(i) =~= ids);
    }
}

/// Where the most recently fetched registry is cached:
/// `<govbot home>/registry.json`.
pub fn registry_cache_path(govbot_home: Option<&str>) -> (r: Option<String>)
    ensures
        match govbot_home {
            Some(h) => r is Some && r->0@ == crate::anchor::path_join(h@, "registry.json"@),
            None => r is None,
        },
{
    match govbot_home {
        Some(h) => Some(crate::anchor::join_path(h, "registry.json")),
        None => None,
    }
}

// ------------------------------------------------------------------
// Laws
// ------------------------------------------------------------------

/// A bare identifier (no `/`, no `@`) names `<default namespace>/<id>`,
/// with no channel: plain jurisdiction codes keep resolving.
pub proof fn law_bare_identifier_uses_default_namespace(ns: Seq<char>, ident: Seq<char>)
    requires
        !contains(ident, "/"@),
        !contains(ident, "@"@),
    ensures
        canonical(ns, ident) == (ns + "/"@ + ident, None::<Seq<char>>),
{
}

/// `<base>@<channel>` names `<base>` on channel `<channel>`, for a
/// namespaced base without `@`.
pub proof fn law_channel_is_split_off(ns: Seq<char>, base: Seq<char>, channel: Seq<char>)
    requires
        contains(base, "/"@),
        !contains(base, "@"@),
    ensures
        canonical(ns, base + "@"@ + channel) == (base, Some(channel)),
{
    reveal_strlit("@");
    let s = base + "@"@ + channel;
    let i = base.len() as int;
    assert(s.subrange(i, i + 1) =~= "@"@);
    lemma_find_props(base, "@"@);
    assert forall|j: int| 0 <= j < i implies !occurs_at(s, "@"@, j) by {
        assert(s.subrange(j, j + 1) =~= base.subrange(j, j + 1));
        assert(!occurs_at(base, "@"@, j));
    }
    lemma_find_first(s, "@"@, i);
    assert(s.take(i) =~= base);
    assert(s.skip(i + 1) =~= channel);
}

/// With canonical keys (each namespaced, none with `@`), `all` resolves
/// to every dataset of the registry, in id order.
pub proof fn law_all_expands_to_every_dataset(ns: Seq<char>, c: Seq<(Seq<char>, DatasetEntry)>)
    requires
        keys_sorted(c),
        forall|j: int|
            0 <= j < c.len() ==> contains(#[trigger] c[j].0, "/"@) && !contains(c[j].0, "@"@),
    ensures
        resolve_all_spec(ns, c, seq!["all"@]) == Ok::<Seq<ResolvedView>, Seq<char>>(all_spec(c)),
{
    reveal_strlit("all");
    lemma_resolve_every_key(ns, c, c.len() as int);
    assert(keys_of(c).take(c.len() as int) =~= keys_of(c));
    assert(c.take(c.len() as int) =~= c);
    let t = trim(seq!["all"@].last());
    assert(!crate::text::is_ws('a'));
    assert(!crate::text::is_ws('l'));
    assert(trim_start("all"@) == "all"@);
    assert(trim_end("all"@) == "all"@);
    assert(seq!["all"@].drop_last() =~= Seq::<Seq<char>>::empty());
    assert(resolve_all_spec(ns, c, Seq::<Seq<char>>::empty()) == Ok::<Seq<ResolvedView>, Seq<char>>(
        Seq::empty(),
    ));
    assert(t == "all"@);
    assert(t.len() == 3);
    assert(eq_ignore_ascii_case(t, "all"@));
    assert(resolve_keys(ns, c, keys_of(c)) == Ok::<Seq<ResolvedView>, Seq<char>>(all_spec(c)));
    assert(Seq::<ResolvedView>::empty() + all_spec(c) =~= all_spec(c));
}

proof fn lemma_resolve_every_key(ns: Seq<char>, c: Seq<(Seq<char>, DatasetEntry)>, n: int)
    requires
        0 <= n <= c.len(),
        keys_sorted(c),
        forall|j: int|
            0 <= j < c.len() ==> contains(#[trigger] c[j].0, "/"@) && !contains(c[j].0, "@"@),
    ensures
        resolve_keys(ns, c, keys_of(c).take(n)) == Ok::<Seq<ResolvedView>, Seq<char>>(
            all_spec(c.take(n)),
        ),
    decreases n,
{
    if n > 0 {
        lemma_resolve_every_key(ns, c, n - 1);
        assert(keys_of(c).take(n).drop_last() =~= keys_of(c).take(n - 1));
        let k = c[n - 1].0;
        assert(keys_of(c).take(n).last() == k);
        assert(contains(k, "/"@));
        assert(find(k, "@"@) is None);
        lemma_lookup_sorted(c, n - 1);
        assert(all_spec(c.take(n)) =~= all_spec(c.take(n - 1)).push(
            ResolvedView { id: k, channel: None, entry: c[n - 1].1@ },
        ));
    } else {
        assert(keys_of(c).take(0) =~= Seq::<Seq<char>>::empty());
        assert(all_spec(c.take(0)) =~= Seq::<ResolvedView>::empty());
    }
}

/// A blank query lists every dataset.
pub proof fn law_blank_search_lists_everything(ds: Seq<ResolvedView>)
    ensures
        search_filter(Seq::empty(), ds) == ds,
    decreases ds.len(),
{
    if ds.len() > 0 {
        law_blank_search_lists_everything(ds.drop_last());
        assert(ds.drop_last().push(ds.last()) =~= ds);
    }
}

/// An identifier (trimmed) that names one dataset: neither blank nor `all`.
pub open spec fn names_one(t: Seq<char>) -> bool {
    t.len() > 0 && !eq_ignore_ascii_case(t, "all"@)
}

/// The identifiers, in order, each trimmed and mapped: a blank one to
/// nothing, `all` (any case) to every dataset, any other to the dataset it
/// resolves to (and to nothing when it does not).
pub open spec fn expanded(
    ns: Seq<char>,
    c: Seq<(Seq<char>, DatasetEntry)>,
    idents: Seq<Seq<char>>,
) -> Seq<ResolvedView>
    decreases idents.len(),
{
    if idents.len() == 0 {
        Seq::empty()
    } else {
        let prev = expanded(ns, c, idents.drop_last());
        let t = trim(idents.last());
        if t.len() == 0 {
            prev
        } else if eq_ignore_ascii_case(t, "all"@) {
            prev + all_spec(c)
        } else {
            match resolve_spec(ns, c, t) {
                Ok(d) => prev.push(d),
                Err(_) => prev,
            }
        }
    }
}

/// With canonical keys (each namespaced, none with `@`), resolving a list
/// of identifiers succeeds exactly when every identifier that names one
/// dataset resolves, and then gives the identifiers flat-mapped in order:
/// blanks to nothing, `all` to every dataset, the others to their dataset.
pub proof fn law_resolve_all_flat_map(
    ns: Seq<char>,
    c: Seq<(Seq<char>, DatasetEntry)>,
    idents: Seq<Seq<char>>,
)
    requires
        keys_sorted(c),
        forall|j: int|
            0 <= j < c.len() ==> contains(#[trigger] c[j].0, "/"@) && !contains(c[j].0, "@"@),
    ensures
        resolve_all_spec(ns, c, idents) is Ok <==> forall|k: int|
            0 <= k < idents.len() && names_one(trim(#[trigger] idents[k])) ==> resolve_spec(
                ns,
                c,
                trim(idents[k]),
            ) is Ok,
        resolve_all_spec(ns, c, idents) is Ok ==> resolve_all_spec(ns, c, idents) == Ok::<
            Seq<ResolvedView>,
            Seq<char>,
        >(expanded(ns, c, idents)),
    decreases idents.len(),
{
    if idents.len() > 0 {
        let p = idents.drop_last();
        law_resolve_all_flat_map(ns, c, p);
        lemma_resolve_every_key(ns, c, c.len() as int);
        assert(keys_of(c).take(c.len() as int) =~= keys_of(c));
        assert(c.take(c.len() as int) =~= c);
        assert forall|k: int| 0 <= k < p.len() implies #[trigger] p[k] == idents[k] by {}
        let last = idents.len() - 1;
        if resolve_all_spec(ns, c, p) is Ok {
            if !(forall|k: int|
                0 <= k < idents.len() && names_one(trim(#[trigger] idents[k])) ==> resolve_spec(
                    ns,
                    c,
                    trim(idents[k]),
                ) is Ok) {
                let k = choose|k: int|
                    !(0 <= k < idents.len() && names_one(trim(#[trigger] idents[k])) ==> resolve_spec(
                        ns,
                        c,
                        trim(idents[k]),
                    ) is Ok);
                if k < p.len() {
                    assert(p[k] == idents[k]);
                } else {
                    assert(k == last);
                }
            }
        } else {
            let k = choose|k: int|
                !(0 <= k < p.len() && names_one(trim(#[trigger] p[k])) ==> resolve_spec(
                    ns,
                    c,
                    trim(p[k]),
                ) is Ok);
            assert(p[k] == idents[k]);
        }
    }
}

/// Searching keeps every dataset whose lower-cased name contains the
/// query, and every dataset whose lower-cased id contains it.
pub proof fn law_search_finds_names_and_ids(q: Seq<char>, ds: Seq<ResolvedView>, k: int)
    requires
        0 <= k < ds.len(),
        (ds[k].entry.name matches Some(n) && contains(lowercase(n), q)) || contains(
            lowercase(ds[k].id),
            q,
        ),
    ensures
        search_filter(q, ds).contains(ds[k]),
    decreases ds.len(),
{
    let init = ds.drop_last();
    let r = search_filter(q, init);
    if k == ds.len() - 1 {
        assert(r.push(ds[k])[r.len() as int] == ds[k]);
    } else {
        assert(init[k] == ds[k]);
        law_search_finds_names_and_ids(q, init, k);
        let j = choose|j: int| 0 <= j < r.len() && r[j] == ds[k];
        assert(r.push(ds.last())[j] == ds[k]);
    }
}

} // verus!
