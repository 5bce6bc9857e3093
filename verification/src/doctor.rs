//! The `doctor` smoke test over what `source --select docs` emits: records
//! bucketed by dataset, the per-dataset checks, and whether the run passes.
use vstd::prelude::*;
use crate::anchor::{join_path, path_join};
use crate::bluesky::{byte_len, utf8_len};
use crate::json::{Json, JsonV, as_str, get, json_text_value, parse_json_text, str_opt};
use crate::num::{decimal, usize_to_string};
use crate::route::{BillRoute, dataset_short_name, doc_route, opt_view, parse_doc_route, short_name_of};
use crate::text::{concat2, copy_str, is_prefix, split, split_str, str_eq, views};
use crate::repos::pad_right;
use crate::wizard::TextBuilder;

verus! {

/// How many failing ids a check reports.
pub const MAX_FAIL_DETAIL: usize = 5;

/// The shortest `text` a record may carry.
pub const MIN_TEXT_LEN: usize = 50;

/// One record of the docs stream: its id and the length of its text.
pub struct DocRecord {
    pub id: String,
    pub text_len: usize,
}

impl DocRecord {
    pub fn copy(&self) -> (r: DocRecord)
        ensures
            r.id@ == self.id@,
            r.text_len == self.text_len,
    {
        DocRecord { id: copy_str(self.id.as_str()), text_len: self.text_len }
    }
}

/// Records as (id, text length) pairs.
pub open spec fn rec_views(rs: Seq<DocRecord>) -> Seq<(Seq<char>, usize)> {
    rs.map_values(|r: DocRecord| (r.id@, r.text_len))
}

/// The ids of records.
pub open spec fn ids_of(rs: Seq<DocRecord>) -> Seq<Seq<char>> {
    rs.map_values(|r: DocRecord| r.id@)
}

/// The first `n` elements of `s` (all of `s` when it is shorter).
pub open spec fn prefix<A>(s: Seq<A>, n: int) -> Seq<A> {
    if n < s.len() {
        s.take(n)
    } else {
        s
    }
}

// ------------------------------------------------------------------
// Routing records to datasets
// ------------------------------------------------------------------

/// The dataset short name a doc id routes to: its dataset prefix with the
/// dataset suffix (or the legacy `-data-pipeline` one) removed.
pub open spec fn route_short(id: Seq<char>, suffix: Seq<char>) -> Option<Seq<char>> {
    match doc_route(id) {
        Some(r) => match r.dataset {
            Some(d) => Some(short_name_of(d, suffix)),
            None => None,
        },
        None => None,
    }
}

/// The dataset a doc id routes to.
pub fn routed_dataset(id: &str, suffix: &str) -> (r: Option<String>)
    ensures
        opt_view(r) == route_short(id@, suffix@),
{
    match parse_doc_route(id) {
        Some(route) => match route.dataset {
            Some(d) => Some(dataset_short_name(d.as_str(), suffix)),
            None => None,
        },
        None => None,
    }
}

/// The records that route to dataset `d`, in stream order.
pub open spec fn routed_to(rs: Seq<DocRecord>, suffix: Seq<char>, d: Seq<char>) -> Seq<DocRecord>
    decreases rs.len(),
{
    if rs.len() == 0 {
        Seq::empty()
    } else if route_short(rs.last().id@, suffix) == Some(d) {
        routed_to(rs.drop_last(), suffix, d).push(rs.last())
    } else {
        routed_to(rs.drop_last(), suffix, d)
    }
}

/// The records that route to no dataset, in stream order.
pub open spec fn unrouted(rs: Seq<DocRecord>, suffix: Seq<char>) -> Seq<DocRecord>
    decreases rs.len(),
{
    if rs.len() == 0 {
        Seq::empty()
    } else if route_short(rs.last().id@, suffix) is None {
        unrouted(rs.drop_last(), suffix).push(rs.last())
    } else {
        unrouted(rs.drop_last(), suffix)
    }
}

/// What the stream says about one dataset.
pub struct DatasetSummary {
    /// How many records route to the dataset.
    pub record_count: usize,
    /// Their ids, each once.
    pub distinct_ids: Vec<String>,
    /// The first records, up to the sample size.
    pub samples: Vec<DocRecord>,
}

fn has_str(v: &Vec<String>, s: &str) -> (b: bool)
    ensures
        b == views(v@).contains(s@),
{
    let mut i: usize = 0;
    while i < v.len()
        invariant
            i <= v.len(),
            forall|j: int| 0 <= j < i ==> views(v@)[j] != s@,
        decreases v.len() - i,
    {
        if str_eq(v[i].as_str(), s) {
            proof {
                assert(views(v@)[i as int] == s@);
            }
            return true;
        }
        i = i + 1;
    }
    false
}

/// Summarize the records of `dataset`: how many route to it, its distinct
/// ids, and the first `sample` of them.
pub fn summarize_dataset(dataset: &str, records: &Vec<DocRecord>, suffix: &str, sample: usize) -> (s:
    DatasetSummary)
    ensures
        s.record_count == routed_to(records@, suffix@, dataset@).len(),
        views(s.distinct_ids@).no_duplicates(),
        views(s.distinct_ids@).to_set() == ids_of(routed_to(records@, suffix@, dataset@)).to_set(),
        rec_views(s.samples@) == prefix(
            rec_views(routed_to(records@, suffix@, dataset@)),
            sample as int,
        ),
{
    let mut count: usize = 0;
    let mut distinct: Vec<String> = Vec::new();
    let mut samples: Vec<DocRecord> = Vec::new();
    let mut i: usize = 0;
    proof {
        assert(records@.take(0) =~= Seq::<DocRecord>::empty());
        assert(views(distinct@) =~= Seq::<Seq<char>>::empty());
        assert(ids_of(Seq::<DocRecord>::empty()) =~= Seq::<Seq<char>>::empty());
        assert(rec_views(samples@) =~= Seq::<(Seq<char>, usize)>::empty());
    }
    while i < records.len()
        invariant
            i <= records.len(),
            count == routed_to(records@.take(i as int), suffix@, dataset@).len(),
            count <= i,
            views(distinct@).no_duplicates(),
            views(distinct@).to_set() == ids_of(
                routed_to(records@.take(i as int), suffix@, dataset@),
            ).to_set(),
            rec_views(samples@) == prefix(
                rec_views(routed_to(records@.take(i as int), suffix@, dataset@)),
                sample as int,
            ),
        decreases records.len() - i,
    {
        let ghost rt = routed_to(records@.take(i as int), suffix@, dataset@);
        proof {
            assert(records@.take(i + 1).drop_last() =~= records@.take(i as int));
            assert(records@.take(i + 1).last() == records@[i as int]);
        }
        let r = routed_dataset(records[i].id.as_str(), suffix);
        let hit = match &r {
            Some(d) => str_eq(d.as_str(), dataset),
            None => false,
        };
        if hit {
            let ghost nrt = rt.push(records@[i as int]);
            assert(routed_to(records@.take(i + 1), suffix@, dataset@) == nrt);
            count = count + 1;
            let id = records[i].id.as_str();
            proof {
                assert(ids_of(nrt) =~= ids_of(rt).push(id@));
                ids_of(rt).lemma_push_to_set_commute(id@);
            }
            if !has_str(&distinct, id) {
                let ghost before = views(distinct@);
                distinct.push(copy_str(id));
                proof {
                    assert(views(distinct@) =~= before.push(id@));
                    before.lemma_push_to_set_commute(id@);
                    assert forall|a: int, b: int|
                        0 <= a < b < views(distinct@).len() implies views(distinct@)[a] != views(
                        distinct@,
                    )[b] by {
                        if b == before.len() {
                            assert(before.contains(before[a]));
                        }
                    }
                }
            } else {
                proof {
                    assert(views(distinct@).to_set().insert(id@) =~= views(distinct@).to_set());
                }
            }
            let ghost sbefore = rec_views(samples@);
            if samples.len() < sample {
                samples.push(records[i].copy());
                proof {
                    assert(rec_views(samples@) =~= sbefore.push((id@, records@[i as int].text_len)));
                    assert(rec_views(nrt) =~= rec_views(rt).push((id@, records@[i as int].text_len)));
                    assert(rec_views(rt).len() == rt.len());
                    assert(sbefore.len() < sample);
                    assert(sbefore == rec_views(rt));
                }
            } else {
                proof {
                    assert(rec_views(nrt) =~= rec_views(rt).push((id@, records@[i as int].text_len)));
                    assert(rec_views(rt).len() == rt.len());
                    if sample < rt.len() {
                        assert(rec_views(nrt).take(sample as int) =~= rec_views(rt).take(
                            sample as int,
                        ));
                    } else {
                        assert(sbefore == rec_views(rt));
                        assert(sbefore.len() == rt.len());
                        assert(rec_views(nrt).take(sample as int) =~= rec_views(rt));
                    }
                }
            }
        } else {
            proof {
                assert(r is Some ==> r->0@ != dataset@);
                assert(routed_to(records@.take(i + 1), suffix@, dataset@) == rt);
            }
        }
        i = i + 1;
    }
    proof {
        assert(records@.take(records@.len() as int) =~= records@);
    }
    DatasetSummary { record_count: count, distinct_ids: distinct, samples }
}

/// The ids of the first records that route to no dataset.
pub fn unrouted_ids(records: &Vec<DocRecord>, suffix: &str) -> (r: Vec<String>)
    ensures
        views(r@) == prefix(ids_of(unrouted(records@, suffix@)), MAX_FAIL_DETAIL as int),
{
    let mut out: Vec<String> = Vec::new();
    let mut i: usize = 0;
    proof {
        assert(records@.take(0) =~= Seq::<DocRecord>::empty());
        assert(views(out@) =~= prefix(
            ids_of(unrouted(records@.take(0), suffix@)),
            MAX_FAIL_DETAIL as int,
        ));
    }
    while i < records.len()
        invariant
            i <= records.len(),
            views(out@) == prefix(
                ids_of(unrouted(records@.take(i as int), suffix@)),
                MAX_FAIL_DETAIL as int,
            ),
        decreases records.len() - i,
    {
        let ghost u = ids_of(unrouted(records@.take(i as int), suffix@));
        proof {
            assert(records@.take(i + 1).drop_last() =~= records@.take(i as int));
            assert(records@.take(i + 1).last() == records@[i as int]);
        }
        let r = routed_dataset(records[i].id.as_str(), suffix);
        if r.is_none() {
            let ghost nu = ids_of(unrouted(records@.take(i + 1), suffix@));
            proof {
                assert(nu =~= u.push(records@[i as int].id@));
            }
            if out.len() < MAX_FAIL_DETAIL {
                let ghost before = views(out@);
                out.push(copy_str(records[i].id.as_str()));
                proof {
                    assert(views(out@) =~= before.push(records@[i as int].id@));
                    assert(before == u);
                }
            } else {
                proof {
                    assert(nu.take(MAX_FAIL_DETAIL as int) =~= u.take(MAX_FAIL_DETAIL as int));
                }
            }
        }
        i = i + 1;
    }
    proof {
        assert(records@.take(records@.len() as int) =~= records@);
    }
    out
}

// ------------------------------------------------------------------
// Checks
// ------------------------------------------------------------------

/// The outcome of one check for one dataset: a label, whether it passed,
/// whether it warned, and its detail lines.
pub struct DoctorCheck {
    pub name: String,
    pub passed: bool,
    pub warned: bool,
    pub detail: Vec<String>,
}

/// The detail of a linked dataset that produced no record.
pub open spec fn coverage_detail(prefix: Seq<char>) -> Seq<char> {
    prefix
        + " is linked but produced 0 records (likely an empty session or `--filter default` dropping every log \u{2014} not necessarily broken)"@
}

/// Coverage: a dataset with no record warns, and never fails.
pub fn coverage_check(prefix: &str, record_count: usize) -> (c: DoctorCheck)
    ensures
        c.name@ == "coverage"@,
        c.passed,
        c.warned == (record_count == 0),
        views(c.detail@) == (if record_count == 0 {
            seq![coverage_detail(prefix@)]
        } else {
            Seq::<Seq<char>>::empty()
        }),
{
    let mut detail: Vec<String> = Vec::new();
    if record_count == 0 {
        let mut t = TextBuilder::new();
        t.add(prefix);
        t.add(
            " is linked but produced 0 records (likely an empty session or `--filter default` dropping every log \u{2014} not necessarily broken)",
        );
        detail.push(t.text);
    }
    proof {
        if record_count == 0 {
            assert(views(detail@) =~= seq![coverage_detail(prefix@)]);
        } else {
            assert(views(detail@) =~= Seq::<Seq<char>>::empty());
        }
    }
    DoctorCheck { name: copy_str("coverage"), passed: true, warned: record_count == 0, detail }
}

/// The distinct-id floor: no records, or at least 3 distinct ids per 100
/// records.
pub open spec fn distinct_enough(distinct: int, total: int) -> bool {
    total == 0 || 100 * distinct >= 3 * total
}

/// Id distinctness: fails when the records collapse onto too few ids; the
/// given `failure_detail` is then its one detail line.
pub fn id_distinctness_check(distinct: usize, total: usize, failure_detail: &str) -> (c: DoctorCheck)
    ensures
        c.name@ == "id_distinctness"@,
        c.passed == distinct_enough(distinct as int, total as int),
        !c.warned,
        views(c.detail@) == (if c.passed {
            Seq::<Seq<char>>::empty()
        } else {
            seq![failure_detail@]
        }),
{
    let passed = total == 0 || (distinct as u128) * 100 >= (total as u128) * 3;
    let mut detail: Vec<String> = Vec::new();
    if !passed {
        detail.push(copy_str(failure_detail));
    }
    proof {
        if passed {
            assert(views(detail@) =~= Seq::<Seq<char>>::empty());
        } else {
            assert(views(detail@) =~= seq![failure_detail@]);
        }
    }
    DoctorCheck { name: copy_str("id_distinctness"), passed, warned: false, detail }
}

/// The detail line of a sample whose text is too short.
pub open spec fn text_failure_line(r: (Seq<char>, usize)) -> Seq<char> {
    r.0 + " :: text length "@ + decimal(r.1 as nat) + " < 50"@
}

/// The detail lines of every sample whose text is shorter than
/// `MIN_TEXT_LEN`, in order.
pub open spec fn text_failures(s: Seq<(Seq<char>, usize)>) -> Seq<Seq<char>>
    decreases s.len(),
{
    if s.len() == 0 {
        Seq::empty()
    } else if s.last().1 < MIN_TEXT_LEN {
        text_failures(s.drop_last()).push(text_failure_line(s.last()))
    } else {
        text_failures(s.drop_last())
    }
}

/// Text length: passes when every sample carries at least `MIN_TEXT_LEN`
/// characters of text; reports the first failing samples.
pub fn text_check(samples: &Vec<DocRecord>) -> (c: DoctorCheck)
    ensures
        c.name@ == "text_non_empty"@,
        c.passed == (text_failures(rec_views(samples@)).len() == 0),
        !c.warned,
        views(c.detail@) == prefix(text_failures(rec_views(samples@)), MAX_FAIL_DETAIL as int),
{
    let ghost sv = rec_views(samples@);
    let mut detail: Vec<String> = Vec::new();
    let mut any = false;
    let mut i: usize = 0;
    proof {
        assert(sv.take(0) =~= Seq::<(Seq<char>, usize)>::empty());
        assert(views(detail@) =~= Seq::<Seq<char>>::empty());
    }
    while i < samples.len()
        invariant
            i <= samples.len(),
            sv == rec_views(samples@),
            views(detail@) == prefix(text_failures(sv.take(i as int)), MAX_FAIL_DETAIL as int),
            any == (text_failures(sv.take(i as int)).len() > 0),
        decreases samples.len() - i,
    {
        let ghost f = text_failures(sv.take(i as int));
        proof {
            assert(sv.take(i + 1).drop_last() =~= sv.take(i as int));
            assert(sv.take(i + 1).last() == sv[i as int]);
            assert(sv[i as int] == (samples@[i as int].id@, samples@[i as int].text_len));
        }
        if samples[i].text_len < MIN_TEXT_LEN {
            let ghost nf = f.push(text_failure_line(sv[i as int]));
            any = true;
            if detail.len() < MAX_FAIL_DETAIL {
                let n = usize_to_string(samples[i].text_len);
                let mut t = TextBuilder::new();
                t.add(samples[i].id.as_str());
                t.add(" :: text length ");
                t.add(n.as_str());
                t.add(" < 50");
                let ghost before = views(detail@);
                detail.push(t.text);
                proof {
                    assert(views(detail@) =~= before.push(text_failure_line(sv[i as int])));
                    assert(before == f);
                }
            } else {
                proof {
                    assert(nf.take(MAX_FAIL_DETAIL as int) =~= f.take(MAX_FAIL_DETAIL as int));
                }
            }
        }
        i = i + 1;
    }
    proof {
        assert(sv.take(samples@.len() as int) =~= sv);
    }
    DoctorCheck { name: copy_str("text_non_empty"), passed: !any, warned: false, detail }
}

/// The detail lines of the samples whose metadata check failed, in order:
/// `<id> :: <reason>`.
pub open spec fn metadata_failures(s: Seq<(Seq<char>, usize)>, verdicts: Seq<Option<String>>) -> Seq<
    Seq<char>,
>
    decreases s.len(),
{
    if s.len() == 0 || verdicts.len() != s.len() {
        Seq::empty()
    } else {
        let rest = metadata_failures(s.drop_last(), verdicts.drop_last());
        match verdicts.last() {
            Some(reason) => rest.push(s.last().0 + " :: "@ + reason@),
            None => rest,
        }
    }
}

/// Metadata: passes when every sample's `metadata.json` resolved; `verdicts`
/// holds, for each sample, `None` when it did and the reason when it did
/// not.
pub fn metadata_check(samples: &Vec<DocRecord>, verdicts: &Vec<Option<String>>) -> (c: DoctorCheck)
    requires
        samples.len() == verdicts.len(),
    ensures
        c.name@ == "metadata_sampleable"@,
        c.passed == (metadata_failures(rec_views(samples@), verdicts@).len() == 0),
        !c.warned,
        views(c.detail@) == prefix(
            metadata_failures(rec_views(samples@), verdicts@),
            MAX_FAIL_DETAIL as int,
        ),
{
    let ghost sv = rec_views(samples@);
    let mut detail: Vec<String> = Vec::new();
    let mut any = false;
    let mut i: usize = 0;
    proof {
        assert(sv.take(0) =~= Seq::<(Seq<char>, usize)>::empty());
        assert(views(detail@) =~= Seq::<Seq<char>>::empty());
    }
    while i < samples.len()
        invariant
            i <= samples.len(),
            samples.len() == verdicts.len(),
            sv == rec_views(samples@),
            views(detail@) == prefix(
                metadata_failures(sv.take(i as int), verdicts@.take(i as int)),
                MAX_FAIL_DETAIL as int,
            ),
            any == (metadata_failures(sv.take(i as int), verdicts@.take(i as int)).len() > 0),
        decreases samples.len() - i,
    {
        let ghost f = metadata_failures(sv.take(i as int), verdicts@.take(i as int));
        proof {
            assert(sv.take(i + 1).drop_last() =~= sv.take(i as int));
            assert(verdicts@.take(i + 1).drop_last() =~= verdicts@.take(i as int));
            assert(sv.take(i + 1).last() == sv[i as int]);
            assert(sv[i as int] == (samples@[i as int].id@, samples@[i as int].text_len));
        }
        match &verdicts[i] {
            Some(reason) => {
                any = true;
                if detail.len() < MAX_FAIL_DETAIL {
                    let mut t = TextBuilder::new();
                    t.add(samples[i].id.as_str());
                    t.add(" :: ");
                    t.add(reason.as_str());
                    let ghost before = views(detail@);
                    detail.push(t.text);
                    proof {
                        assert(views(detail@) =~= before.push(sv[i as int].0 + " :: "@ + reason@));
                        assert(before == f);
                    }
                } else {
                    proof {
                        let nf = f.push(sv[i as int].0 + " :: "@ + reason@);
                        assert(nf.take(MAX_FAIL_DETAIL as int) =~= f.take(MAX_FAIL_DETAIL as int));
                    }
                }
            },
            None => {},
        }
        i = i + 1;
    }
    proof {
        assert(sv.take(samples@.len() as int) =~= sv);
        assert(verdicts@.take(verdicts@.len() as int) =~= verdicts@);
    }
    DoctorCheck { name: copy_str("metadata_sampleable"), passed: !any, warned: false, detail }
}

// ------------------------------------------------------------------
// Reports
// ------------------------------------------------------------------

/// The report for one dataset.
pub struct DatasetReport {
    pub dataset: String,
    pub record_count: usize,
    pub distinct_ids: usize,
    pub sampled: usize,
    pub checks: Vec<DoctorCheck>,
}

impl DatasetReport {
    /// Every check passed.
    pub open spec fn all_passed(&self) -> bool {
        forall|i: int| 0 <= i < self.checks@.len() ==> (#[trigger] self.checks@[i]).passed
    }

    /// Some check warned.
    pub open spec fn any_warned(&self) -> bool {
        exists|i: int| 0 <= i < self.checks@.len() && (#[trigger] self.checks@[i]).warned
    }

    /// True when every check passed.
    pub fn passed(&self) -> (b: bool)
        ensures
            b == self.all_passed(),
    {
        let mut i: usize = 0;
        while i < self.checks.len()
            invariant
                i <= self.checks.len(),
                forall|j: int| 0 <= j < i ==> (#[trigger] self.checks@[j]).passed,
            decreases self.checks.len() - i,
        {
            if !self.checks[i].passed {
                return false;
            }
            i = i + 1;
        }
        true
    }

    /// True when some check warned.
    pub fn warned(&self) -> (b: bool)
        ensures
            b == self.any_warned(),
    {
        let mut i: usize = 0;
        while i < self.checks.len()
            invariant
                i <= self.checks.len(),
                forall|j: int| 0 <= j < i ==> !(#[trigger] self.checks@[j]).warned,
            decreases self.checks.len() - i,
        {
            if self.checks[i].warned {
                return true;
            }
            i = i + 1;
        }
        false
    }
}

/// The report of `dataset` (whose repo directory is `prefix`) from its
/// summary: coverage, id distinctness, sampled metadata and sampled text
/// length, in that order.
pub fn dataset_report(
    dataset: &str,
    prefix: &str,
    summary: DatasetSummary,
    metadata_verdicts: &Vec<Option<String>>,
    distinctness_detail: &str,
) -> (r: DatasetReport)
    requires
        summary.samples.len() == metadata_verdicts.len(),
    ensures
        r.dataset@ == dataset@,
        r.record_count == summary.record_count,
        r.distinct_ids == summary.distinct_ids.len(),
        r.sampled == summary.samples.len(),
        r.checks.len() == 4,
        r.checks[0].name@ == "coverage"@,
        r.checks[0].passed,
        r.checks[0].warned == (summary.record_count == 0),
        r.checks[1].name@ == "id_distinctness"@,
        r.checks[1].passed == distinct_enough(
            summary.distinct_ids.len() as int,
            summary.record_count as int,
        ),
        r.checks[2].name@ == "metadata_sampleable"@,
        r.checks[2].passed == (metadata_failures(
            rec_views(summary.samples@),
            metadata_verdicts@,
        ).len() == 0),
        r.checks[3].name@ == "text_non_empty"@,
        r.checks[3].passed == (text_failures(rec_views(summary.samples@)).len() == 0),
        !r.checks[1].warned && !r.checks[2].warned && !r.checks[3].warned,
        views(r.checks[0].detail@) == (if summary.record_count == 0 {
            seq![coverage_detail(prefix@)]
        } else {
            Seq::<Seq<char>>::empty()
        }),
        views(r.checks[1].detail@) == (if r.checks[1].passed {
            Seq::<Seq<char>>::empty()
        } else {
            seq![distinctness_detail@]
        }),
        views(r.checks[2].detail@) == self::prefix(
            metadata_failures(rec_views(summary.samples@), metadata_verdicts@),
            MAX_FAIL_DETAIL as int,
        ),
        views(r.checks[3].detail@) == self::prefix(
            text_failures(rec_views(summary.samples@)),
            MAX_FAIL_DETAIL as int,
        ),
        r.all_passed() == (r.checks[1].passed && r.checks[2].passed && r.checks[3].passed),
        r.any_warned() == (summary.record_count == 0),
{
    let mut checks: Vec<DoctorCheck> = Vec::new();
    checks.push(coverage_check(prefix, summary.record_count));
    checks.push(
        id_distinctness_check(summary.distinct_ids.len(), summary.record_count, distinctness_detail),
    );
    checks.push(metadata_check(&summary.samples, metadata_verdicts));
    checks.push(text_check(&summary.samples));
    let r = DatasetReport {
        dataset: copy_str(dataset),
        record_count: summary.record_count,
        distinct_ids: summary.distinct_ids.len(),
        sampled: summary.samples.len(),
        checks,
    };
    proof {
        if r.checks[1].passed && r.checks[2].passed && r.checks[3].passed {
            assert forall|i: int| 0 <= i < r.checks@.len() implies (#[trigger] r.checks@[i]).passed by {
                if i == 0 {
                } else if i == 1 {
                } else if i == 2 {
                } else {
                }
            }
        }
        if r.any_warned() {
            let i = choose|i: int| 0 <= i < r.checks@.len() && (#[trigger] r.checks@[i]).warned;
            assert(i == 0);
        }
        if summary.record_count == 0 {
            assert(r.checks@[0].warned);
        }
    }
    r
}

/// A doctor run passes when each id names its dataset, `repos/` holds no
/// dangling dataset link, and each dataset passes its checks.
pub open spec fn doctor_passed_spec(reports: Seq<DatasetReport>, unrouted: nat, broken: nat) -> bool {
    unrouted == 0 && broken == 0 && forall|i: int|
        0 <= i < reports.len() ==> (#[trigger] reports[i]).all_passed()
}

/// Whether a doctor run passes.
pub fn doctor_passed(reports: &Vec<DatasetReport>, unrouted: &Vec<String>, broken: &Vec<String>) -> (b:
    bool)
    ensures
        b == doctor_passed_spec(reports@, unrouted.len() as nat, broken.len() as nat),
{
    if unrouted.len() > 0 || broken.len() > 0 {
        return false;
    }
    let mut i: usize = 0;
    while i < reports.len()
        invariant
            i <= reports.len(),
            forall|j: int| 0 <= j < i ==> (#[trigger] reports@[j]).all_passed(),
        decreases reports.len() - i,
    {
        if !reports[i].passed() {
            return false;
        }
        i = i + 1;
    }
    true
}

// ------------------------------------------------------------------
// metadata.json
// ------------------------------------------------------------------

/// Where a bill's `metadata.json` lives under its dataset's repo directory:
/// `country:<c>/state:<s>/sessions/<session>/bills/<bill>/metadata.json`.
pub open spec fn metadata_path_of(
    repo_dir: Seq<char>,
    country: Seq<char>,
    state: Seq<char>,
    session: Seq<char>,
    bill: Seq<char>,
) -> Seq<char> {
    path_join(
        path_join(
            path_join(
                path_join(
                    path_join(
                        path_join(path_join(repo_dir, "country:"@ + country), "state:"@ + state),
                        "sessions"@,
                    ),
                    session,
                ),
                "bills"@,
            ),
            bill,
        ),
        "metadata.json"@,
    )
}

/// The message for a doc id that is no dataset bill path.
pub open spec fn unroutable_id_message() -> Seq<char> {
    "id does not match expected `country:.../bills/<bill_id>` shape"@
}

/// The `metadata.json` a doc id points at, under the dataset's repo
/// directory; an error for an id that is no bill path.
pub fn metadata_path(doc_id: &str, repo_dir: &str) -> (r: Result<String, String>)
    ensures
        match doc_route(doc_id@) {
            Some(rt) => r matches Ok(p) && p@ == metadata_path_of(
                repo_dir@,
                rt.country,
                rt.state,
                rt.session,
                rt.bill_id,
            ),
            None => r matches Err(m) && m@ == unroutable_id_message(),
        },
{
    match parse_doc_route(doc_id) {
        None => Err(copy_str("id does not match expected `country:.../bills/<bill_id>` shape")),
        Some(route) => {
            let mut c = TextBuilder::new();
            c.add("country:");
            c.add(route.country.as_str());
            let mut s = TextBuilder::new();
            s.add("state:");
            s.add(route.state.as_str());
            let p1 = join_path(repo_dir, c.text.as_str());
            let p2 = join_path(p1.as_str(), s.text.as_str());
            let p3 = join_path(p2.as_str(), "sessions");
            let p4 = join_path(p3.as_str(), route.session.as_str());
            let p5 = join_path(p4.as_str(), "bills");
            let p6 = join_path(p5.as_str(), route.bill_id.as_str());
            Ok(join_path(p6.as_str(), "metadata.json"))
        },
    }
}

/// A non-empty string under `key`.
pub open spec fn has_nonempty_str(v: JsonV, key: Seq<char>) -> bool {
    match get(v, key) {
        Some(x) => match as_str(x) {
            Some(s) => s.len() > 0,
            None => false,
        },
        None => false,
    }
}

/// The message for a `metadata.json` with neither a title nor an identifier.
pub open spec fn untitled_metadata_message(path: Seq<char>) -> Seq<char> {
    "metadata.json at "@ + path + " has neither `title` nor `identifier`"@
}

fn nonempty_str_at(v: &Json, key: &str) -> (b: bool)
    ensures
        b == has_nonempty_str(v@, key@),
{
    match v.get(key) {
        Some(x) => match x.as_str() {
            Some(s) => s.unicode_len() > 0,
            None => false,
        },
        None => false,
    }
}

/// A parsed `metadata.json` at `path` is usable when it carries a non-empty
/// `title` or `identifier` string.
pub fn metadata_fields_verdict(path: &str, value: &Json) -> (r: Result<(), String>)
    ensures
        r is Ok <==> (has_nonempty_str(value@, "title"@) || has_nonempty_str(value@, "identifier"@)),
        r matches Err(m) ==> m@ == untitled_metadata_message(path@),
{
    if nonempty_str_at(value, "title") || nonempty_str_at(value, "identifier") {
        Ok(())
    } else {
        let mut t = TextBuilder::new();
        t.add("metadata.json at ");
        t.add(path);
        t.add(" has neither `title` nor `identifier`");
        Err(t.text)
    }
}

// ------------------------------------------------------------------
// Reading what `source --select docs` and `metadata.json` hold
// ------------------------------------------------------------------

/// `n` capped at `usize::MAX`.
pub open spec fn cap_usize(n: nat) -> usize {
    if n <= usize::MAX {
        n as usize
    } else {
        usize::MAX
    }
}

/// The record a docs line holds: its `id` (or `""`) and the UTF-8 length of
/// its `text` (or 0).
pub open spec fn doc_record_of(v: JsonV) -> (Seq<char>, usize) {
    (
        match str_opt(get(v, "id"@)) {
            Some(s) => s,
            None => Seq::empty(),
        },
        match str_opt(get(v, "text"@)) {
            Some(s) => cap_usize(byte_len(s)),
            None => 0,
        },
    )
}

/// The records of the non-empty lines that are JSON values, in order.
pub open spec fn doc_records(lines: Seq<Seq<char>>) -> Seq<(Seq<char>, usize)>
    decreases lines.len(),
{
    if lines.len() == 0 {
        Seq::empty()
    } else if lines.last().len() == 0 {
        doc_records(lines.drop_last())
    } else {
        match json_text_value(lines.last()) {
            Some(v) => doc_records(lines.drop_last()).push(doc_record_of(v)),
            None => doc_records(lines.drop_last()),
        }
    }
}

fn str_field(v: &Json, key: &str) -> (r: Option<String>)
    ensures
        opt_view(r) == str_opt(get(v@, key@)),
{
    match v.get(key) {
        Some(x) => match x.as_str() {
            Some(s) => Some(copy_str(s)),
            None => None,
        },
        None => None,
    }
}

/// Reads the docs stream: one record per non-empty line that is a JSON
/// value (see `doc_records`).
pub fn doc_records_from_stream(text: &str) -> (r: Vec<DocRecord>)
    ensures
        rec_views(r@) == doc_records(split(text@, "\n"@)),
{
    proof {
        reveal_strlit("\n");
    }
    let lines = split_str(text, "\n");
    let ghost ls = views(lines@);
    let mut out: Vec<DocRecord> = Vec::new();
    let mut i: usize = 0;
    proof {
        assert(ls.take(0) =~= Seq::<Seq<char>>::empty());
        assert(rec_views(out@) =~= Seq::<(Seq<char>, usize)>::empty());
    }
    while i < lines.len()
        invariant
            i <= lines.len(),
            ls == views(lines@),
            rec_views(out@) == doc_records(ls.take(i as int)),
        decreases lines.len() - i,
    {
        proof {
            assert(ls.take(i + 1).drop_last() =~= ls.take(i as int));
            assert(ls.take(i + 1).last() == lines@[i as int]@);
        }
        let line = lines[i].as_str();
        if line.unicode_len() > 0 {
            match parse_json_text(line) {
                Ok(v) => {
                    let id = match str_field(&v, "id") {
                        Some(s) => s,
                        None => String::new(),
                    };
                    let text_len = match str_field(&v, "text") {
                        Some(s) => utf8_len(s.as_str()),
                        None => 0,
                    };
                    let ghost before = out@;
                    out.push(DocRecord { id, text_len });
                    proof {
                        assert(rec_views(out@) =~= rec_views(before).push(doc_record_of(v@)));
                    }
                },
                Err(_) => {},
            }
        }
        i = i + 1;
    }
    proof {
        assert(ls.take(ls.len() as int) =~= ls);
    }
    out
}

/// The message for a `metadata.json` that is no JSON value.
pub open spec fn invalid_metadata_prefix(path: Seq<char>) -> Seq<char> {
    "invalid JSON in "@ + path + ": "@
}

/// Checks the text of the `metadata.json` at `path`: it must be a JSON
/// value carrying a non-empty `title` or `identifier` string. A text that is
/// no JSON value gets `invalid JSON in <path>: ` and serde_json's message.
pub fn metadata_text_verdict(path: &str, text: &str) -> (r: Result<(), String>)
    ensures
        match json_text_value(text@) {
            None => r matches Err(m) && is_prefix(invalid_metadata_prefix(path@), m@),
            Some(v) => {
                &&& r is Ok <==> (has_nonempty_str(v, "title"@) || has_nonempty_str(
                    v,
                    "identifier"@,
                ))
                &&& r matches Err(m) ==> m@ == untitled_metadata_message(path@)
            },
        },
{
    match parse_json_text(text) {
        Ok(v) => metadata_fields_verdict(path, &v),
        Err(e) => {
            let mut t = TextBuilder::new();
            t.add("invalid JSON in ");
            t.add(path);
            t.add(": ");
            let ghost head = t.text@;
            t.add(e.as_str());
            proof {
                reveal_strlit("invalid JSON in ");
                reveal_strlit(": ");
                assert(head =~= invalid_metadata_prefix(path@));
                assert(t.text@.take(head.len() as int) =~= head);
            }
            Err(t.text)
        },
    }
}

/// The message for a `metadata.json` that is not there.
pub open spec fn missing_metadata_message(path: Seq<char>) -> Seq<char> {
    "metadata.json not found at "@ + path
}

/// Checks the `metadata.json` at `path`, given whether it exists and, when
/// it does, its text or the read error: missing and unreadable files are
/// reported; a read text is checked by `metadata_text_verdict`.
pub fn metadata_file_check(path: &str, exists: bool, read: Result<&str, &str>) -> (r: Result<(), String>)
    ensures
        !exists ==> (r matches Err(m) && m@ == missing_metadata_message(path@)),
        exists ==> (match read {
            Err(e) => r matches Err(m) && m@ == "cannot read "@ + path@ + ": "@ + e@,
            Ok(text) => match json_text_value(text@) {
                None => r matches Err(m) && is_prefix(invalid_metadata_prefix(path@), m@),
                Some(v) => {
                    &&& r is Ok <==> (has_nonempty_str(v, "title"@) || has_nonempty_str(
                        v,
                        "identifier"@,
                    ))
                    &&& r matches Err(m) ==> m@ == untitled_metadata_message(path@)
                },
            },
        }),
{
    if !exists {
        return Err(concat2("metadata.json not found at ", path));
    }
    match read {
        Err(e) => {
            let mut t = TextBuilder::new();
            t.add("cannot read ");
            t.add(path);
            t.add(": ");
            t.add(e);
            Err(t.text)
        },
        Ok(text) => metadata_text_verdict(path, text),
    }
}

// ------------------------------------------------------------------
// The text report
// ------------------------------------------------------------------

/// One detail line of the text report.
pub open spec fn bullet(d: Seq<char>) -> Seq<char> {
    "            \u{2022} "@ + d
}

/// Detail lines for `ds`, each followed by `suffix`.
pub open spec fn bullet_lines(ds: Seq<Seq<char>>, suffix: Seq<char>) -> Seq<Seq<char>> {
    Seq::new(ds.len(), |i: int| bullet(ds[i] + suffix))
}

/// The lines of one check: a failed or warned check names itself and its
/// detail; a clean one prints nothing.
pub open spec fn check_lines(c: DoctorCheck) -> Seq<Seq<char>> {
    if !c.passed {
        seq!["        - "@ + c.name@ + ": FAIL"@] + bullet_lines(views(c.detail@), Seq::empty())
    } else if c.warned {
        seq!["        - "@ + c.name@ + ": WARN"@] + bullet_lines(views(c.detail@), Seq::empty())
    } else {
        Seq::empty()
    }
}

pub open spec fn checks_lines(cs: Seq<DoctorCheck>) -> Seq<Seq<char>>
    decreases cs.len(),
{
    if cs.len() == 0 {
        Seq::empty()
    } else {
        checks_lines(cs.drop_last()) + check_lines(cs.last())
    }
}

/// `FAIL` when a check failed, else `WARN` when one warned, else `PASS`.
pub open spec fn status_of(r: DatasetReport) -> Seq<char> {
    if !r.all_passed() {
        "FAIL"@
    } else if r.any_warned() {
        "WARN"@
    } else {
        "PASS"@
    }
}

/// The one-line summary of a dataset.
pub open spec fn report_line_of(r: DatasetReport) -> Seq<char> {
    "  ["@ + status_of(r) + "] "@ + pad_right(r.dataset@, 22) + "  records="@ + pad_right(
        decimal(r.record_count as nat),
        5,
    ) + " distinct="@ + pad_right(decimal(r.distinct_ids as nat), 5) + " sampled="@ + decimal(
        r.sampled as nat,
    )
}

/// Per dataset, its summary line and the lines of its checks.
pub open spec fn reports_lines(rs: Seq<DatasetReport>) -> Seq<Seq<char>>
    decreases rs.len(),
{
    if rs.len() == 0 {
        Seq::empty()
    } else {
        reports_lines(rs.drop_last()) + seq![report_line_of(rs.last())] + checks_lines(
            rs.last().checks@,
        )
    }
}

pub open spec fn capped(n: nat) -> int {
    if n < MAX_FAIL_DETAIL {
        n as int
    } else {
        MAX_FAIL_DETAIL as int
    }
}

/// The `global.dataset_links` section.
pub open spec fn links_lines(broken: Seq<Seq<char>>) -> Seq<Seq<char>> {
    if broken.len() == 0 {
        seq!["  [PASS] global.dataset_links"@]
    } else {
        seq![
            "  [FAIL] global.dataset_links  "@ + decimal(broken.len())
                + " broken or non-dir entry/entries in repos/:"@,
        ] + bullet_lines(
            broken.take(capped(broken.len())),
            " (likely a dangling symlink or non-directory)"@,
        ) + if broken.len() > MAX_FAIL_DETAIL {
            seq![bullet("...and "@ + decimal((broken.len() - MAX_FAIL_DETAIL) as nat) + " more"@)]
        } else {
            Seq::empty()
        }
    }
}

/// The `global.routable_ids` section.
pub open spec fn routable_lines(unrouted: Seq<Seq<char>>) -> Seq<Seq<char>> {
    if unrouted.len() == 0 {
        seq!["  [PASS] global.routable_ids"@]
    } else {
        seq![
            "  [FAIL] global.routable_ids  "@ + decimal(unrouted.len())
                + " id(s) without a `<dataset>/country:...` prefix:"@,
        ] + bullet_lines(unrouted.take(capped(unrouted.len())), Seq::empty())
    }
}

/// The text report after its heading: the datasets, a blank line, the
/// global checks, a blank line and the verdict.
pub open spec fn doctor_text_of(
    rs: Seq<DatasetReport>,
    unrouted: Seq<Seq<char>>,
    broken: Seq<Seq<char>>,
    all_passed: bool,
) -> Seq<Seq<char>> {
    reports_lines(rs) + seq![Seq::empty()] + links_lines(broken) + routable_lines(unrouted) + seq![
        Seq::empty(),
        if all_passed {
            "doctor: PASS"@
        } else {
            "doctor: FAIL"@
        },
    ]
}

fn push_line(out: &mut Vec<String>, line: String)
    ensures
        views(final(out)@) == views(old(out)@).push(line@),
{
    let ghost before = out@;
    out.push(line);
    proof {
        assert(views(out@) =~= views(before).push(line@));
    }
}

/// Pushes the detail lines of `ds[..n]`, each followed by `suffix`.
fn push_bullets(out: &mut Vec<String>, ds: &Vec<String>, n: usize, suffix: &str)
    requires
        n <= ds.len(),
    ensures
        views(final(out)@) == views(old(out)@) + bullet_lines(views(ds@).take(n as int), suffix@),
{
    let ghost start = views(out@);
    let mut i: usize = 0;
    proof {
        assert(bullet_lines(views(ds@).take(0), suffix@) =~= Seq::<Seq<char>>::empty());
        assert(views(out@) =~= start + Seq::<Seq<char>>::empty());
    }
    while i < n
        invariant
            i <= n <= ds.len(),
            views(out@) == start + bullet_lines(views(ds@).take(i as int), suffix@),
        decreases n - i,
    {
        let mut t = TextBuilder::new();
        t.add("            \u{2022} ");
        t.add(ds[i].as_str());
        t.add(suffix);
        proof {
            reveal_strlit("            \u{2022} ");
            assert(t.text@ =~= bullet(ds@[i as int]@ + suffix@));
        }
        push_line(out, t.text);
        proof {
            assert(views(ds@)[i as int] == ds@[i as int]@);
            assert(bullet_lines(views(ds@).take(i + 1), suffix@) =~= bullet_lines(
                views(ds@).take(i as int),
                suffix@,
            ).push(bullet(ds@[i as int]@ + suffix@)));
            assert(views(out@) =~= start + bullet_lines(views(ds@).take(i + 1), suffix@));
        }
        i = i + 1;
    }
}

fn push_check_lines(out: &mut Vec<String>, c: &DoctorCheck)
    ensures
        views(final(out)@) == views(old(out)@) + check_lines(*c),
{
    let ghost start = views(out@);
    if !c.passed || c.warned {
        let mut t = TextBuilder::new();
        t.add("        - ");
        t.add(c.name.as_str());
        t.add(if !c.passed {
            ": FAIL"
        } else {
            ": WARN"
        });
        push_line(out, t.text);
        push_bullets(out, &c.detail, c.detail.len(), "");
        proof {
            reveal_strlit("");
            assert(views(c.detail@).take(c.detail@.len() as int) =~= views(c.detail@));
            assert(""@ =~= Seq::<char>::empty());
            assert(views(out@) =~= start + check_lines(*c));
        }
    } else {
        proof {
            assert(views(out@) =~= start + check_lines(*c));
        }
    }
}

fn status_text(r: &DatasetReport) -> (s: &'static str)
    ensures
        s@ == status_of(*r),
{
    proof {
        reveal_strlit("FAIL");
        reveal_strlit("WARN");
        reveal_strlit("PASS");
    }
    if !r.passed() {
        "FAIL"
    } else if r.warned() {
        "WARN"
    } else {
        "PASS"
    }
}

/// The one-line summary of a dataset (see `report_line_of`).
pub fn report_line(r: &DatasetReport) -> (s: String)
    ensures
        s@ == report_line_of(*r),
{
    let mut t = TextBuilder::new();
    t.add("  [");
    t.add(status_text(r));
    t.add("] ");
    t.add(crate::repos::pad(r.dataset.as_str(), 22).as_str());
    t.add("  records=");
    t.add(crate::repos::pad(usize_to_string(r.record_count).as_str(), 5).as_str());
    t.add(" distinct=");
    t.add(crate::repos::pad(usize_to_string(r.distinct_ids).as_str(), 5).as_str());
    t.add(" sampled=");
    t.add(usize_to_string(r.sampled).as_str());
    t.text
}

fn push_reports_lines(out: &mut Vec<String>, reports: &Vec<DatasetReport>)
    ensures
        views(final(out)@) == views(old(out)@) + reports_lines(reports@),
{
    let ghost start = views(out@);
    let mut i: usize = 0;
    proof {
        assert(reports@.take(0) =~= Seq::<DatasetReport>::empty());
        assert(views(out@) =~= start + reports_lines(reports@.take(0)));
    }
    while i < reports.len()
        invariant
            i <= reports.len(),
            views(out@) == start + reports_lines(reports@.take(i as int)),
        decreases reports.len() - i,
    {
        let r = &reports[i];
        push_line(out, report_line(r));
        let ghost mid = views(out@);
        let mut k: usize = 0;
        proof {
            assert(r.checks@.take(0) =~= Seq::<DoctorCheck>::empty());
            assert(views(out@) =~= mid + checks_lines(r.checks@.take(0)));
        }
        while k < r.checks.len()
            invariant
                k <= r.checks.len(),
                views(out@) == mid + checks_lines(r.checks@.take(k as int)),
            decreases r.checks.len() - k,
        {
            push_check_lines(out, &r.checks[k]);
            proof {
                assert(r.checks@.take(k + 1).drop_last() =~= r.checks@.take(k as int));
                assert(views(out@) =~= mid + checks_lines(r.checks@.take(k + 1)));
            }
            k = k + 1;
        }
        proof {
            assert(r.checks@.take(r.checks@.len() as int) =~= r.checks@);
            assert(reports@.take(i + 1).drop_last() =~= reports@.take(i as int));
            assert(reports@.take(i + 1).last() == *r);
            assert(views(out@) =~= start + reports_lines(reports@.take(i + 1)));
        }
        i = i + 1;
    }
    proof {
        assert(reports@.take(reports@.len() as int) =~= reports@);
    }
}

fn push_links_lines(out: &mut Vec<String>, broken: &Vec<String>)
    ensures
        views(final(out)@) == views(old(out)@) + links_lines(views(broken@)),
{
    let ghost start = views(out@);
    if broken.len() == 0 {
        push_line(out, copy_str("  [PASS] global.dataset_links"));
    } else {
        let mut t = TextBuilder::new();
        t.add("  [FAIL] global.dataset_links  ");
        t.add(usize_to_string(broken.len()).as_str());
        t.add(" broken or non-dir entry/entries in repos/:");
        push_line(out, t.text);
        let n = if broken.len() < MAX_FAIL_DETAIL {
            broken.len()
        } else {
            MAX_FAIL_DETAIL
        };
        push_bullets(out, broken, n, " (likely a dangling symlink or non-directory)");
        if broken.len() > MAX_FAIL_DETAIL {
            let mut m = TextBuilder::new();
            m.add("            \u{2022} ");
            m.add("...and ");
            m.add(usize_to_string(broken.len() - MAX_FAIL_DETAIL).as_str());
            m.add(" more");
            proof {
                reveal_strlit("            \u{2022} ");
                assert(m.text@ =~= bullet(
                    "...and "@ + decimal((broken.len() - MAX_FAIL_DETAIL) as nat) + " more"@,
                ));
            }
            push_line(out, m.text);
        }
    }
    proof {
        assert(views(out@) =~= start + links_lines(views(broken@)));
    }
}

fn push_routable_lines(out: &mut Vec<String>, unrouted: &Vec<String>)
    ensures
        views(final(out)@) == views(old(out)@) + routable_lines(views(unrouted@)),
{
    let ghost start = views(out@);
    if unrouted.len() == 0 {
        push_line(out, copy_str("  [PASS] global.routable_ids"));
    } else {
        let mut t = TextBuilder::new();
        t.add("  [FAIL] global.routable_ids  ");
        t.add(usize_to_string(unrouted.len()).as_str());
        t.add(" id(s) without a `<dataset>/country:...` prefix:");
        push_line(out, t.text);
        let n = if unrouted.len() < MAX_FAIL_DETAIL {
            unrouted.len()
        } else {
            MAX_FAIL_DETAIL
        };
        push_bullets(out, unrouted, n, "");
    }
    proof {
        reveal_strlit("");
        assert(""@ =~= Seq::<char>::empty());
        assert(views(out@) =~= start + routable_lines(views(unrouted@)));
    }
}

/// The lines of the text report after its heading (see `doctor_text_of`).
pub fn doctor_text_lines(
    reports: &Vec<DatasetReport>,
    unrouted: &Vec<String>,
    broken: &Vec<String>,
    all_passed: bool,
) -> (r: Vec<String>)
    ensures
        views(r@) == doctor_text_of(reports@, views(unrouted@), views(broken@), all_passed),
{
    let mut out: Vec<String> = Vec::new();
    push_reports_lines(&mut out, reports);
    push_line(&mut out, String::new());
    push_links_lines(&mut out, broken);
    push_routable_lines(&mut out, unrouted);
    push_line(&mut out, String::new());
    push_line(
        &mut out,
        copy_str(
            if all_passed {
                "doctor: PASS"
            } else {
                "doctor: FAIL"
            },
        ),
    );
    proof {
        assert(views(Seq::<String>::empty()) =~= Seq::<Seq<char>>::empty());
        assert(views(out@) =~= doctor_text_of(
            reports@,
            views(unrouted@),
            views(broken@),
            all_passed,
        ));
    }
    out
}

} // verus!
