//! The project manifest (`govbot.yml`: datasets / transforms / publish /
//! pipelines) and the configuration of the log-processing pipeline.
use vstd::prelude::*;
use crate::error::Error;
use crate::num::{parse_usize, parse_usize_spec};
use crate::registry::copy_opt;
use crate::route::opt_view;
use crate::smap::StrMap;
use crate::text::{
    concat3, copy_str, eq_ignore_ascii_case, eq_ignore_ascii_case_str, split, split_str,
    split_whitespace_str, str_eq, to_uppercase_str, trim, trim_str, uppercase, views, words,
};

verus! {

// ------------------------------------------------------------------
// The manifest
// ------------------------------------------------------------------

/// A transform `command`: a shell-style string or an argv array.
pub enum Command_ {
    /// A single string, split on whitespace into argv.
    Shell(String),
    /// An explicit argv array (the first element is the executable).
    Argv(Vec<String>),
}

/// The argv a command denotes.
pub open spec fn argv_of(c: Command_) -> Seq<Seq<char>> {
    match c {
        Command_::Shell(s) => words(s@),
        Command_::Argv(v) => views(v@),
    }
}

pub fn copy_strs(v: &Vec<String>) -> (r: Vec<String>)
    ensures
        views(r@) == views(v@),
{
    let mut out: Vec<String> = Vec::new();
    let mut i: usize = 0;
    while i < v.len()
        invariant
            i <= v.len(),
            views(out@) == views(v@).take(i as int),
        decreases v.len() - i,
    {
        let ghost before = out@;
        out.push(copy_str(v[i].as_str()));
        proof {
            assert(views(out@) =~= views(before).push(v@[i as int]@));
            assert(views(v@).take(i + 1) =~= views(v@).take(i as int).push(v@[i as int]@));
        }
        i = i + 1;
    }
    proof {
        assert(views(v@).take(v@.len() as int) =~= views(v@));
    }
    out
}

impl Command_ {
    /// The argv vector: a `Shell` string is split on whitespace.
    pub fn argv(&self) -> (r: Vec<String>)
        ensures
            views(r@) == argv_of(*self),
    {
        match self {
            Command_::Shell(s) => {
                let r = split_whitespace_str(s.as_str());
                proof {
                    assert(views(r@) =~= r@.map_values(|x: String| x@));
                }
                r
            },
            Command_::Argv(v) => copy_strs(v),
        }
    }
}

/// An external-process transform stage.
pub struct Transform {
    /// The process to run.
    pub command: Command_,
    /// The stream record kind it consumes (e.g. `docs`).
    pub reads: String,
    /// The stream record kind it produces (e.g. `classification`).
    pub writes: String,
    /// For a classify transform: the classifier bundle directory.
    pub classifier: Option<String>,
}

/// The publisher kind.
#[derive(Debug, Clone, Copy, PartialEq, Eq, Structural)]
pub enum PublisherKind {
    Rss,
    Html,
    Json,
    Duckdb,
    Bluesky,
}

/// A publisher's `limit:` as written in the manifest.
pub enum LimitValue {
    /// A string, e.g. `"none"` or `"50"`.
    Text(String),
    /// A number that is a non-negative integer.
    Unsigned(u64),
    /// Any other number (negative or fractional).
    OtherNumber,
    /// Any other value.
    Other,
}

/// A publisher stage.
pub struct Publisher {
    pub kind: PublisherKind,
    /// Tag names to include; all tagged records when omitted.
    pub select: Option<Vec<String>>,
    /// Base URL for generated links.
    pub base_url: Option<String>,
    pub output_dir: Option<String>,
    pub output_file: Option<String>,
    pub title: Option<String>,
    pub description: Option<String>,
    /// Maximum number of entries.
    pub limit: Option<LimitValue>,
    /// Path of the posted-state ledger (bluesky).
    pub ledger: Option<String>,
    /// Post text template (bluesky).
    pub post_template: Option<String>,
}

/// What a `limit:` resolves to: absent → the default; `"none"` (any case)
/// → no limit; a numeric string or a non-negative integer → that cap;
/// anything unreadable → the default.
pub open spec fn resolved_limit_spec(limit: Option<LimitValue>, default: Option<usize>) -> Option<usize> {
    match limit {
        None => default,
        Some(LimitValue::Text(s)) => if eq_ignore_ascii_case(s@, "none"@) {
            None
        } else {
            match parse_usize_spec(s@) {
                Some(n) => Some(n),
                None => default,
            }
        },
        Some(LimitValue::Unsigned(n)) => Some(n as usize),
        Some(_) => default,
    }
}

impl Publisher {
    /// Resolve `limit` (see `resolved_limit_spec`).
    pub fn resolved_limit(&self, default: Option<usize>) -> (r: Option<usize>)
        ensures
            r == resolved_limit_spec(self.limit, default),
    {
        match &self.limit {
            None => default,
            Some(LimitValue::Text(s)) => {
                if eq_ignore_ascii_case_str(s.as_str(), "none") {
                    None
                } else {
                    match parse_usize(s.as_str()) {
                        Some(n) => Some(n),
                        None => default,
                    }
                }
            },
            Some(LimitValue::Unsigned(n)) => Some(*n as usize),
            Some(_) => default,
        }
    }
}

/// A `govbot.yml` manifest.
pub struct Manifest {
    /// The `$schema` reference, ignored at runtime.
    pub schema: Option<String>,
    /// The datasets the project pulls and processes.
    pub datasets: Vec<String>,
    /// Named transforms, in name order.
    pub transforms: StrMap<Transform>,
    /// Named publishers, in name order.
    pub publish: StrMap<Publisher>,
    /// Named `govbot run` targets.
    pub pipelines: StrMap<Vec<String>>,
}

// ------------------------------------------------------------------
// The processor configuration
// ------------------------------------------------------------------

/// Sort order for log entries.
#[derive(Debug, Clone, Copy, PartialEq, Eq, Structural)]
pub enum SortOrder {
    Ascending,
    Descending,
}

/// `ASC` (any case) is ascending; anything else descending.
pub open spec fn sort_order_of(s: Seq<char>) -> SortOrder {
    if uppercase(s) == "ASC"@ {
        SortOrder::Ascending
    } else {
        SortOrder::Descending
    }
}

impl SortOrder {
    /// The order a string names (see `sort_order_of`).
    pub fn from_text(s: &str) -> (r: SortOrder)
        ensures
            r == sort_order_of(s@),
    {
        let up = to_uppercase_str(s);
        if str_eq(up.as_str(), "ASC") {
            SortOrder::Ascending
        } else {
            SortOrder::Descending
        }
    }
}

/// Join options for metadata.
#[derive(Debug, Clone, Copy, PartialEq, Eq, Structural)]
pub enum JoinOption {
    Bill,
}

/// Configuration of the log-processing pipeline.
pub struct Config {
    pub git_dir: String,
    pub repos: Vec<String>,
    pub sort_order: SortOrder,
    pub limit: Option<usize>,
    pub join_options: Vec<JoinOption>,
}

pub struct ConfigView {
    pub git_dir: Seq<char>,
    pub repos: Seq<Seq<char>>,
    pub sort_order: SortOrder,
    pub limit: Option<usize>,
    pub join_options: Seq<JoinOption>,
}

impl View for Config {
    type V = ConfigView;

    open spec fn view(&self) -> ConfigView {
        ConfigView {
            git_dir: self.git_dir@,
            repos: views(self.repos@),
            sort_order: self.sort_order,
            limit: self.limit,
            join_options: self.join_options@,
        }
    }
}

/// What validating a configuration gives, given whether its directory
/// exists and is a directory.
pub open spec fn validate_spec(git_dir: Seq<char>, exists: bool, is_dir: bool) -> Result<(), Seq<char>> {
    if !exists {
        Err("Git directory does not exist: "@ + git_dir)
    } else if !is_dir {
        Err("Git directory is not a directory: "@ + git_dir)
    } else {
        Ok(())
    }
}

pub open spec fn unit_result(r: Result<(), Error>) -> Result<(), Seq<char>> {
    match r {
        Ok(()) => Ok(()),
        Err(Error::Config(m)) => Err(m@),
    }
}

impl Config {
    /// A default configuration for `git_dir`: no repos, descending, no
    /// limit, no joins.
    pub fn new(git_dir: &str) -> (r: Config)
        ensures
            r@ == (ConfigView {
                git_dir: git_dir@,
                repos: Seq::empty(),
                sort_order: SortOrder::Descending,
                limit: None,
                join_options: Seq::empty(),
            }),
    {
        let r = Config {
            git_dir: copy_str(git_dir),
            repos: Vec::new(),
            sort_order: SortOrder::Descending,
            limit: None,
            join_options: Vec::new(),
        };
        proof {
            assert(views(r.repos@) =~= Seq::<Seq<char>>::empty());
        }
        r
    }

    /// Check the git directory: it must exist and be a directory. Whether
    /// it does is read from the file system by the caller.
    pub fn validate(&self, exists: bool, is_dir: bool) -> (r: Result<(), Error>)
        ensures
            unit_result(r) == validate_spec(self.git_dir@, exists, is_dir),
    {
        if !exists {
            return Err(
                Error::Config(
                    crate::text::concat2("Git directory does not exist: ", self.git_dir.as_str()),
                ),
            );
        }
        if !is_dir {
            return Err(
                Error::Config(
                    crate::text::concat2(
                        "Git directory is not a directory: ",
                        self.git_dir.as_str(),
                    ),
                ),
            );
        }
        Ok(())
    }
}

impl Default for Config {
    fn default() -> (r: Config)
        ensures
            r.git_dir@ == "tmp/repos"@,
            r.repos@.len() == 0,
            r.sort_order == SortOrder::Descending,
            r.limit is None,
            r.join_options@.len() == 0,
    {
        let r = Config::new("tmp/repos");
        proof {
            assert(r.repos@.len() == views(r.repos@).len());
        }
        r
    }
}

/// The join options a comma-separated string names: each piece trimmed;
/// `bill` is `JoinOption::Bill`; an empty piece or any other value fails,
/// the first failing piece deciding the message.
pub open spec fn join_options_spec(pieces: Seq<Seq<char>>) -> Result<Seq<JoinOption>, Seq<char>>
    decreases pieces.len(),
{
    if pieces.len() == 0 {
        Ok(Seq::empty())
    } else {
        match join_options_spec(pieces.drop_last()) {
            Err(e) => Err(e),
            Ok(prev) => {
                let t = trim(pieces.last());
                if t.len() == 0 {
                    Err("Empty join option"@)
                } else if t == "bill"@ {
                    Ok(prev.push(JoinOption::Bill))
                } else {
                    Err("Invalid join value '"@ + t + "'. Allowed values are: bill"@)
                }
            },
        }
    }
}

/// What `join_options_str` gives: the empty string clears the options.
pub open spec fn join_options_str_spec(options: Seq<char>) -> Result<Seq<JoinOption>, Seq<char>> {
    if options.len() == 0 {
        Ok(Seq::empty())
    } else {
        join_options_spec(split(options, ","@))
    }
}

/// A builder of `Config`.
pub struct ConfigBuilder {
    config: Config,
}

impl ConfigBuilder {
    /// The configuration being built.
    pub closed spec fn current(&self) -> ConfigView {
        self.config@
    }

    /// Start from `Config::new(git_dir)`.
    pub fn new(git_dir: &str) -> (r: ConfigBuilder)
        ensures
            r.current() == (ConfigView {
                git_dir: git_dir@,
                repos: Seq::empty(),
                sort_order: SortOrder::Descending,
                limit: None,
                join_options: Seq::empty(),
            }),
    {
        ConfigBuilder { config: Config::new(git_dir) }
    }

    /// Set the git directory.
    pub fn git_dir(self, dir: &str) -> (r: ConfigBuilder)
        ensures
            r.current() == (ConfigView { git_dir: dir@, ..self.current() }),
    {
        let mut s = self;
        s.config.git_dir = copy_str(dir);
        s
    }

    /// Add a repository.
    pub fn add_repo(self, repo: &str) -> (r: ConfigBuilder)
        ensures
            r.current() == (ConfigView {
                repos: self.current().repos.push(repo@),
                ..self.current()
            }),
    {
        let mut s = self;
        let ghost before = s.config.repos@;
        s.config.repos.push(copy_str(repo));
        proof {
            assert(views(s.config.repos@) =~= views(before).push(repo@));
        }
        s
    }

    /// Replace the repositories.
    pub fn repos(self, repos: Vec<String>) -> (r: ConfigBuilder)
        ensures
            r.current() == (ConfigView { repos: views(repos@), ..self.current() }),
    {
        let mut s = self;
        s.config.repos = repos;
        s
    }

    /// Set the sort order.
    pub fn sort_order(self, order: SortOrder) -> (r: ConfigBuilder)
        ensures
            r.current() == (ConfigView { sort_order: order, ..self.current() }),
    {
        let mut s = self;
        s.config.sort_order = order;
        s
    }

    /// Set the sort order from a string (see `sort_order_of`); never fails.
    pub fn sort_order_str(self, order: &str) -> (r: Result<ConfigBuilder, Error>)
        ensures
            r matches Ok(b) && b.current() == (ConfigView {
                sort_order: sort_order_of(order@),
                ..self.current()
            }),
    {
        let mut s = self;
        s.config.sort_order = SortOrder::from_text(order);
        Ok(s)
    }

    /// Set the limit.
    pub fn limit(self, limit: usize) -> (r: ConfigBuilder)
        ensures
            r.current() == (ConfigView { limit: Some(limit), ..self.current() }),
    {
        let mut s = self;
        s.config.limit = Some(limit);
        s
    }

    /// Clear the limit.
    pub fn no_limit(self) -> (r: ConfigBuilder)
        ensures
            r.current() == (ConfigView { limit: None, ..self.current() }),
    {
        let mut s = self;
        s.config.limit = None;
        s
    }

    /// Add a join option, unless it is already there.
    pub fn add_join_option(self, option: JoinOption) -> (r: ConfigBuilder)
        ensures
            r.current() == (ConfigView {
                join_options: if self.current().join_options.contains(option) {
                    self.current().join_options
                } else {
                    self.current().join_options.push(option)
                },
                ..self.current()
            }),
    {
        let mut s = self;
        let mut found = false;
        let mut i: usize = 0;
        while i < s.config.join_options.len()
            invariant
                i <= s.config.join_options.len(),
                found == s.config.join_options@.take(i as int).contains(option),
            decreases s.config.join_options.len() - i,
        {
            proof {
                let t = s.config.join_options@.take(i + 1);
                assert(t =~= s.config.join_options@.take(i as int).push(
                    s.config.join_options@[i as int],
                ));
                if found {
                    let j = choose|j: int|
                        0 <= j < i && s.config.join_options@.take(i as int)[j] == option;
                    assert(t[j] == option);
                }
                if t.contains(option) {
                    let j = choose|j: int| 0 <= j < t.len() && t[j] == option;
                    if j < i {
                        assert(s.config.join_options@.take(i as int)[j] == option);
                    }
                }
            }
            if s.config.join_options[i] == option {
                found = true;
                proof {
                    assert(s.config.join_options@.take(i + 1)[i as int] == option);
                }
            }
            i = i + 1;
        }
        proof {
            assert(s.config.join_options@.take(i as int) =~= s.config.join_options@);
        }
        if !found {
            s.config.join_options.push(option);
        }
        s
    }

    /// Set the join options from a comma-separated string (see
    /// `join_options_str_spec`); on failure the builder is dropped.
    pub fn join_options_str(self, options: &str) -> (r: Result<ConfigBuilder, Error>)
        ensures
            match r {
                Ok(b) => join_options_str_spec(options@) == Ok::<Seq<JoinOption>, Seq<char>>(
                    b.current().join_options,
                ) && b.current() == (ConfigView {
                    join_options: b.current().join_options,
                    ..self.current()
                }),
                Err(Error::Config(m)) => join_options_str_spec(options@) == Err::<
                    Seq<JoinOption>,
                    Seq<char>,
                >(m@),
            },
    {
        let mut s = self;
        if options.unicode_len() == 0 {
            s.config.join_options = Vec::new();
            return Ok(s);
        }
        proof {
            reveal_strlit(",");
        }
        let pieces = split_str(options, ",");
        let ghost pv = views(pieces@);
        proof {
            assert(pv =~= pieces@.map_values(|x: String| x@));
        }
        let mut opts: Vec<JoinOption> = Vec::new();
        let mut i: usize = 0;
        proof {
            assert(pv.take(0) =~= Seq::<Seq<char>>::empty());
        }
        while i < pieces.len()
            invariant
                i <= pieces.len(),
                pv == views(pieces@),
                pv == split(options@, ","@),
                options@.len() > 0,
                join_options_spec(pv.take(i as int)) == Ok::<Seq<JoinOption>, Seq<char>>(opts@),
            decreases pieces.len() - i,
        {
            proof {
                assert(pv.take(i + 1).drop_last() =~= pv.take(i as int));
                assert(pv.take(i + 1).last() == pieces@[i as int]@);
            }
            let t = trim_str(pieces[i].as_str());
            if t.unicode_len() == 0 {
                proof {
                    lemma_join_options_err_sticks(pv, i as int + 1);
                }
                return Err(Error::Config(copy_str("Empty join option")));
            }
            if str_eq(t.as_str(), "bill") {
                opts.push(JoinOption::Bill);
            } else {
                proof {
                    lemma_join_options_err_sticks(pv, i as int + 1);
                }
                return Err(
                    Error::Config(
                        concat3("Invalid join value '", t.as_str(), "'. Allowed values are: bill"),
                    ),
                );
            }
            i = i + 1;
        }
        proof {
            assert(pv.take(pv.len() as int) =~= pv);
        }
        s.config.join_options = opts;
        Ok(s)
    }

    /// Validate and return the configuration (see `Config::validate`).
    pub fn build(self, exists: bool, is_dir: bool) -> (r: Result<Config, Error>)
        ensures
            match r {
                Ok(c) => validate_spec(self.current().git_dir, exists, is_dir) is Ok && c@
                    == self.current(),
                Err(Error::Config(m)) => validate_spec(self.current().git_dir, exists, is_dir)
                    == Err::<(), Seq<char>>(m@),
            },
    {
        match self.config.validate(exists, is_dir) {
            Ok(()) => Ok(self.config),
            Err(e) => Err(e),
        }
    }
}

proof fn lemma_join_options_err_sticks(pieces: Seq<Seq<char>>, i: int)
    requires
        0 <= i <= pieces.len(),
        join_options_spec(pieces.take(i)) is Err,
    ensures
        join_options_spec(pieces) == join_options_spec(pieces.take(i)),
    decreases pieces.len() - i,
{
    if i < pieces.len() {
        assert(pieces.take(i + 1).drop_last() =~= pieces.take(i));
        lemma_join_options_err_sticks(pieces, i + 1);
    } else {
        assert(pieces.take(i) =~= pieces);
    }
}

/// Join options parse exactly when every comma-separated piece trims to
/// `bill`; they are then one `Bill` per piece.
pub proof fn law_join_options_accept_only_bill(pieces: Seq<Seq<char>>)
    ensures
        join_options_spec(pieces) is Ok <==> forall|i: int|
            0 <= i < pieces.len() ==> #[trigger] trim(pieces[i]) == "bill"@,
        join_options_spec(pieces) is Ok ==> join_options_spec(pieces)->Ok_0 == Seq::new(
            pieces.len(),
            |i: int| JoinOption::Bill,
        ),
    decreases pieces.len(),
{
    reveal_strlit("bill");
    if pieces.len() > 0 {
        let p = pieces.drop_last();
        law_join_options_accept_only_bill(p);
        let all_p = forall|i: int| 0 <= i < p.len() ==> #[trigger] trim(p[i]) == "bill"@;
        let all = forall|i: int| 0 <= i < pieces.len() ==> #[trigger] trim(pieces[i]) == "bill"@;
        if all {
            assert forall|i: int| 0 <= i < p.len() implies #[trigger] trim(p[i]) == "bill"@ by {
                assert(p[i] == pieces[i]);
                assert(trim(pieces[i]) == "bill"@);
            }
            assert(trim(pieces[pieces.len() - 1]) == "bill"@);
            assert(pieces.last() == pieces[pieces.len() - 1]);
        }
        if all_p && trim(pieces.last()) == "bill"@ {
            assert forall|i: int| 0 <= i < pieces.len() implies #[trigger] trim(pieces[i])
                == "bill"@ by {
                if i < p.len() {
                    assert(p[i] == pieces[i]);
                    assert(trim(p[i]) == "bill"@);
                }
            }
        }
        if !all_p {
            let j = choose|j: int| 0 <= j < p.len() && !(#[trigger] trim(p[j]) == "bill"@);
            assert(p[j] == pieces[j]);
            assert(!(trim(pieces[j]) == "bill"@));
        }
        if join_options_spec(p) is Ok {
            assert(Seq::new(p.len(), |i: int| JoinOption::Bill).push(JoinOption::Bill) =~= Seq::new(
                pieces.len(),
                |i: int| JoinOption::Bill,
            ));
        }
    } else {
        assert(Seq::new(0, |i: int| JoinOption::Bill) =~= Seq::<JoinOption>::empty());
    }
}

} // verus!
