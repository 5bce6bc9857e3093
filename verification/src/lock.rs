//! `govbot.lock`: the exact commit each dataset resolved to, for
//! reproducible runs.
use vstd::prelude::*;
use crate::anchor::{join_path, path_join};
use crate::registry::copy_opt;
use crate::route::opt_view;
use crate::smap::{StrMap, lookup_key};
use crate::num::{all_digits, is_digit};
use crate::text::copy_str;

verus! {

/// The current lockfile format version.
pub const LOCKFILE_VERSION: u32 = 1;

/// One pinned dataset.
pub struct LockedDataset {
    pub git_url: String,
    pub channel: Option<String>,
    /// The exact commit SHA.
    pub commit: String,
    /// The shared-cache key of the dataset's clone.
    pub cache_key: String,
    /// When the dataset was last resolved (RFC 3339, UTC).
    pub resolved_at: String,
}

pub struct LockedView {
    pub git_url: Seq<char>,
    pub channel: Option<Seq<char>>,
    pub commit: Seq<char>,
    pub cache_key: Seq<char>,
    pub resolved_at: Seq<char>,
}

impl View for LockedDataset {
    type V = LockedView;

    open spec fn view(&self) -> LockedView {
        LockedView {
            git_url: self.git_url@,
            channel: opt_view(self.channel),
            commit: self.commit@,
            cache_key: self.cache_key@,
            resolved_at: self.resolved_at@,
        }
    }
}

/// The whole lockfile.
pub struct LockFile {
    pub lockfile_version: u32,
    /// When the lockfile was last written (RFC 3339, UTC).
    pub generated_at: String,
    /// Canonical id → pin, in id order.
    pub datasets: StrMap<LockedDataset>,
}

/// The pin under `id`, as a view.
pub open spec fn pin_of(lock: LockFile, id: Seq<char>) -> Option<LockedView> {
    match lookup_key(lock.datasets.contents(), id) {
        Some(d) => Some(d@),
        None => None,
    }
}

/// `YYYY`: four digits, or a sign and at least four digits for a year
/// outside 0..=9999.
pub open spec fn year_text(y: Seq<char>) -> bool {
    ||| (y.len() == 4 && all_digits(y))
    ||| (y.len() >= 5 && (y[0] == '+' || y[0] == '-') && all_digits(y.drop_first()))
}

/// `-MM-DDTHH:MM:SSZ`: the part of a UTC time stamp after its year.
pub open spec fn utc_tail(t: Seq<char>) -> bool {
    &&& t.len() == 16
    &&& t[0] == '-' && t[3] == '-' && t[6] == 'T' && t[9] == ':' && t[12] == ':' && t[15] == 'Z'
    &&& is_digit(t[1]) && is_digit(t[2]) && is_digit(t[4]) && is_digit(t[5])
    &&& is_digit(t[7]) && is_digit(t[8]) && is_digit(t[10]) && is_digit(t[11])
    &&& is_digit(t[13]) && is_digit(t[14])
}

/// An RFC 3339 UTC time stamp with whole seconds and a `Z` suffix:
/// `YYYY-MM-DDTHH:MM:SSZ`.
pub open spec fn utc_seconds_stamp(s: Seq<char>) -> bool {
    s.len() >= 20 && year_text(s.take(s.len() - 16)) && utc_tail(s.skip(s.len() - 16))
}

/// The time since the Unix epoch by the system clock
/// (`SystemTime::now().duration_since(UNIX_EPOCH)`), as whole seconds and
/// the nanoseconds within the second; `None` when the clock reads before the
/// epoch. Which time it is, is the clock's and is not stated.
#[verifier::external_body]
fn unix_time_now() -> (r: Option<(u64, u32)>)
    ensures
        r matches Some((_, n)) ==> n < 1_000_000_000,
{
    match std::time::SystemTime::now().duration_since(std::time::UNIX_EPOCH) {
        Ok(d) => Some((d.as_secs(), d.subsec_nanos())),
        Err(_) => None,
    }
}

/// What chrono writes for a Unix time with
/// `to_rfc3339_opts(SecondsFormat::Secs, true)`.
pub uninterp spec fn rfc3339_secs(secs: i64, nanos: u32) -> Seq<char>;

/// The first second of the year 10000 (`10000-01-01T00:00:00Z`) since the
/// Unix epoch.
pub const LAST_FOUR_DIGIT_SECOND: i64 = 253_402_300_800;

/// `chrono::DateTime::<Utc>::from_timestamp(secs, nanos)` written with
/// `to_rfc3339_opts(SecondsFormat::Secs, true)`. chrono documents `None`
/// only for seconds out of its range or an invalid nanosecond; stated here
/// is that a time from the epoch to the end of the year 9999 with a
/// nanosecond below one second has a date. The text is named
/// `rfc3339_secs(secs, nanos)`, and chrono writes it as the year (four
/// digits, or a sign and more digits outside 0..=9999) followed by
/// `-MM-DDTHH:MM:SSZ`.
#[verifier::external_body]
fn format_rfc3339(secs: i64, nanos: u32) -> (r: Option<String>)
    ensures
        r matches Some(s) ==> s@ == rfc3339_secs(secs, nanos) && utc_seconds_stamp(s@),
        0 <= secs < LAST_FOUR_DIGIT_SECOND && nanos < 1_000_000_000 ==> r is Some,
{
    chrono::DateTime::from_timestamp(secs, nanos).map(
        |t| t.to_rfc3339_opts(chrono::SecondsFormat::Secs, true),
    )
}

/// The stamp of a clock reading (seconds and nanoseconds since the Unix
/// epoch): none without a reading or for seconds beyond `i64`; otherwise
/// chrono's whole-second RFC 3339 text of that time, which is there for
/// every reading up to the end of the year 9999.
pub fn stamp_of_reading(reading: Option<(u64, u32)>) -> (r: Option<String>)
    ensures
        reading is None ==> r is None,
        reading matches Some((s, n)) ==> (if s > i64::MAX {
            r is None
        } else {
            &&& (r matches Some(t) ==> t@ == rfc3339_secs(s as i64, n))
            &&& (s < LAST_FOUR_DIGIT_SECOND && n < 1_000_000_000 ==> r is Some)
        }),
        r matches Some(t) ==> utc_seconds_stamp(t@),
{
    match reading {
        Some((secs, nanos)) => if secs <= i64::MAX as u64 {
            format_rfc3339(secs as i64, nanos)
        } else {
            None
        },
        None => None,
    }
}

/// The current UTC time as a whole-second RFC 3339 stamp: the stamp of the
/// clock's reading (see `stamp_of_reading`).
pub fn now_rfc3339() -> (r: Option<String>)
    ensures
        r matches Some(s) ==> utc_seconds_stamp(s@),
{
    stamp_of_reading(unix_time_now())
}

/// A stamp written from the clock: a whole-second UTC stamp, or empty when
/// the clock could not be read.
pub open spec fn clock_stamp(s: Seq<char>) -> bool {
    s.len() == 0 || utc_seconds_stamp(s)
}

fn stamp_now() -> (r: String)
    ensures
        clock_stamp(r@),
{
    match now_rfc3339() {
        Some(s) => s,
        None => String::new(),
    }
}

impl Default for LockFile {
    /// An empty lockfile stamped with the current time (empty when the
    /// clock cannot be read); see `LockFile::empty_at`.
    fn default() -> (r: LockFile)
        ensures
            r.lockfile_version == LOCKFILE_VERSION,
            r.datasets.contents().len() == 0,
            clock_stamp(r.generated_at@),
    {
        LockFile::empty_at(stamp_now().as_str())
    }
}

impl LockFile {
    /// The lockfile path of a project: `<project>/govbot.lock`.
    pub fn path_for(project_dir: &str) -> (r: String)
        ensures
            r@ == path_join(project_dir@, "govbot.lock"@),
    {
        join_path(project_dir, "govbot.lock")
    }

    /// An empty lockfile of the current format, generated at `now`.
    pub fn empty_at(now: &str) -> (r: LockFile)
        ensures
            r.lockfile_version == LOCKFILE_VERSION,
            r.datasets.contents().len() == 0,
            r.generated_at@ == now@,
    {
        LockFile { lockfile_version: LOCKFILE_VERSION, generated_at: copy_str(now), datasets: StrMap::new() }
    }

    /// Record (or overwrite) a dataset's pin, resolved at `now`. Every other
    /// pin is left as it was.
    pub fn pin_at(
        &mut self,
        canonical_id: &str,
        git_url: &str,
        channel: Option<&str>,
        commit: &str,
        cache_key: &str,
        now: &str,
    )
        ensures
            final(self).lockfile_version == old(self).lockfile_version,
            final(self).generated_at == old(self).generated_at,
            pin_of(*final(self), canonical_id@) == Some(
                LockedView {
                    git_url: git_url@,
                    channel: match channel {
                        Some(c) => Some(c@),
                        None => None,
                    },
                    commit: commit@,
                    cache_key: cache_key@,
                    resolved_at: now@,
                },
            ),
            forall|k: Seq<char>|
                k != canonical_id@ ==> #[trigger] pin_of(*final(self), k) == pin_of(
                    *old(self),
                    k,
                ),
    {
        let entry = LockedDataset {
            git_url: copy_str(git_url),
            channel: match channel {
                Some(c) => Some(copy_str(c)),
                None => None,
            },
            commit: copy_str(commit),
            cache_key: copy_str(cache_key),
            resolved_at: copy_str(now),
        };
        let ghost ev = entry;
        self.datasets.insert(copy_str(canonical_id), entry);
        proof {
            assert(lookup_key(self.datasets.contents(), canonical_id@) == Some(ev));
        }
    }

    /// Record (or overwrite) a dataset's pin, resolved at the current time
    /// (see `pin_at`; the stamp is empty when the clock cannot be read).
    pub fn pin(
        &mut self,
        canonical_id: &str,
        git_url: &str,
        channel: Option<&str>,
        commit: &str,
        cache_key: &str,
    )
        ensures
            final(self).lockfile_version == old(self).lockfile_version,
            final(self).generated_at == old(self).generated_at,
            pin_of(*final(self), canonical_id@) matches Some(p) && p.git_url == git_url@
                && p.channel == (match channel {
                Some(c) => Some(c@),
                None => None,
            }) && p.commit == commit@ && p.cache_key == cache_key@ && clock_stamp(
                p.resolved_at,
            ),
            forall|k: Seq<char>|
                k != canonical_id@ ==> #[trigger] pin_of(*final(self), k) == pin_of(
                    *old(self),
                    k,
                ),
    {
        let now = stamp_now();
        self.pin_at(canonical_id, git_url, channel, commit, cache_key, now.as_str());
    }

    /// Stamp the lockfile for writing at `now`: the current format version
    /// and that time.
    pub fn refresh_at(&mut self, now: &str)
        ensures
            final(self).lockfile_version == LOCKFILE_VERSION,
            final(self).generated_at@ == now@,
            final(self).datasets == old(self).datasets,
    {
        self.lockfile_version = LOCKFILE_VERSION;
        self.generated_at = copy_str(now);
    }

    /// Stamp the lockfile for writing at the current time (see
    /// `refresh_at`; the stamp is empty when the clock cannot be read).
    pub fn refresh(&mut self)
        ensures
            final(self).lockfile_version == LOCKFILE_VERSION,
            clock_stamp(final(self).generated_at@),
            final(self).datasets == old(self).datasets,
    {
        let now = stamp_now();
        self.refresh_at(now.as_str());
    }
}

/// A resolved dataset pin, captured by a successful clone or pull.
pub struct DatasetPin {
    pub canonical_id: String,
    pub git_url: String,
    pub channel: Option<String>,
    pub commit: String,
    pub cache_key: String,
}

/// `p` is a captured pin of the dataset `k`.
pub open spec fn names(p: Option<DatasetPin>, k: Seq<char>) -> bool {
    p matches Some(q) && q.canonical_id@ == k
}

/// `v` is the pin that `p` records, stamped from the clock.
pub open spec fn pinned_as(v: Option<LockedView>, p: DatasetPin) -> bool {
    v matches Some(v) && v.git_url == p.git_url@ && v.channel == opt_view(p.channel)
        && v.commit == p.commit@ && v.cache_key == p.cache_key@ && clock_stamp(
        v.resolved_at,
    )
}

/// `j` is the last position in `pins[..n]` that names `k`.
pub open spec fn last_naming(pins: Seq<Option<DatasetPin>>, n: int, k: Seq<char>, j: int) -> bool {
    0 <= j < n && names(pins[j], k) && forall|m: int| j < m < n ==> !#[trigger] names(pins[m], k)
}

/// Pin every captured dataset into the lockfile, in order; the number
/// pinned is returned. Each dataset named by a pin holds the last pin that
/// names it; every other dataset keeps its old pin.
pub fn pin_all(lock: &mut LockFile, pins: &Vec<Option<DatasetPin>>) -> (n: usize)
    ensures
        n == pins@.filter(|p: Option<DatasetPin>| p is Some).len(),
        final(lock).lockfile_version == old(lock).lockfile_version,
        final(lock).generated_at == old(lock).generated_at,
        forall|k: Seq<char>, j: int|
            #[trigger] last_naming(pins@, pins@.len() as int, k, j) ==> pinned_as(
                pin_of(*final(lock), k),
                pins@[j]->0,
            ),
        forall|k: Seq<char>|
            (forall|i: int| 0 <= i < pins@.len() ==> !#[trigger] names(pins@[i], k))
                ==> #[trigger] pin_of(*final(lock), k) == pin_of(*old(lock), k),
{
    let mut n: usize = 0;
    let mut i: usize = 0;
    while i < pins.len()
        invariant
            i <= pins.len(),
            n == pins@.take(i as int).filter(|p: Option<DatasetPin>| p is Some).len(),
            n <= i,
            lock.lockfile_version == old(lock).lockfile_version,
            lock.generated_at == old(lock).generated_at,
            forall|k: Seq<char>, j: int|
                #[trigger] last_naming(pins@, i as int, k, j) ==> pinned_as(
                    pin_of(*lock, k),
                    pins@[j]->0,
                ),
            forall|k: Seq<char>|
                (forall|j: int| 0 <= j < i ==> !#[trigger] names(pins@[j], k))
                    ==> #[trigger] pin_of(*lock, k) == pin_of(*old(lock), k),
        decreases pins.len() - i,
    {
        proof {
            assert(pins@.take(i + 1) =~= pins@.take(i as int).push(pins@[i as int]));
            pins@.take(i as int).lemma_filter_push(
                pins@[i as int],
                |p: Option<DatasetPin>| p is Some,
            );
            let f = pins@.take(i as int).filter(|p: Option<DatasetPin>| p is Some);
            assert(f.len() <= i) by {
                broadcast use vstd::seq_lib::group_filter_ensures;
            }
        }
        let ghost before = *lock;
        match &pins[i] {
            Some(p) => {
                let ghost k0 = p.canonical_id@;
                proof {
                    assert(names(pins@[i as int], k0));
                }
                lock.pin(
                    p.canonical_id.as_str(),
                    p.git_url.as_str(),
                    match &p.channel {
                        Some(c) => Some(c.as_str()),
                        None => None,
                    },
                    p.commit.as_str(),
                    p.cache_key.as_str(),
                );
                proof {
                    assert(pins@[i as int]->0 == *p);
                    assert forall|k: Seq<char>, j: int|
                        #[trigger] last_naming(pins@, i + 1, k, j) implies pinned_as(
                        pin_of(*lock, k),
                        pins@[j]->0,
                    ) by {
                        if k == k0 {
                            if j < i {
                                assert(names(pins@[i as int], k));
                            }
                            assert(j == i);
                        } else {
                            assert(last_naming(pins@, i as int, k, j));
                            assert(pin_of(*lock, k) == pin_of(before, k));
                        }
                    }
                    assert forall|k: Seq<char>|
                        (forall|j: int| 0 <= j < i + 1 ==> !#[trigger] names(pins@[j], k))
                            implies #[trigger] pin_of(*lock, k) == pin_of(*old(lock), k) by {
                        assert(!names(pins@[i as int], k));
                        assert(pin_of(*lock, k) == pin_of(before, k));
                    }
                }
                n = n + 1;
            },
            None => {
                proof {
                    assert forall|k: Seq<char>, j: int|
                        #[trigger] last_naming(pins@, i + 1, k, j) implies pinned_as(
                        pin_of(*lock, k),
                        pins@[j]->0,
                    ) by {
                        assert(!names(pins@[i as int], k));
                        assert(last_naming(pins@, i as int, k, j));
                    }
                    assert forall|k: Seq<char>|
                        (forall|j: int| 0 <= j < i + 1 ==> !#[trigger] names(pins@[j], k))
                            implies #[trigger] pin_of(*lock, k) == pin_of(*old(lock), k) by {
                        assert forall|j: int| 0 <= j < i implies !#[trigger] names(pins@[j], k) by {
                            assert(!names(pins@[j], k));
                        }
                    }
                }
            },
        }
        i = i + 1;
    }
    proof {
        assert(pins@.take(pins@.len() as int) =~= pins@);
    }
    n
}

} // verus!
