//! The four statistics together: one pass over the records of each file feeds
//! every accumulator, and the report reads the finished state.
use vstd::prelude::*;

use crate::dependents::{best_leader, insert_dependent_all, DependentsIndex, IndexView};
use crate::leader::{empty_leader, leader_step, Leader, LeaderView};
use crate::record::{DecodeError, PackageRecord, RecordView};
use crate::versions::{count_of, lemma_counts_step, empty_versions, versions_step, VersionCounter, VersionsView};

verus! {

/// The value of the accumulated statistics.
pub struct StatsView {
    pub most_dependencies: LeaderView,
    pub dependents: IndexView,
    pub most_features: LeaderView,
    pub versions: VersionsView,
    pub observed: nat,
}

/// The statistics before any record.
pub open spec fn empty_stats() -> StatsView {
    StatsView {
        most_dependencies: empty_leader(),
        dependents: Seq::empty(),
        most_features: empty_leader(),
        versions: empty_versions(),
        observed: 0,
    }
}

/// The statistics after one more record.
pub open spec fn stats_step(st: StatsView, r: RecordView) -> StatsView {
    StatsView {
        most_dependencies: leader_step(st.most_dependencies, r.name, r.deps),
        dependents: insert_dependent_all(st.dependents, r.deps, r.name),
        most_features: leader_step(st.most_features, r.name, r.features),
        versions: versions_step(st.versions, r.name),
        observed: st.observed + 1,
    }
}

/// The statistics after the records of `s`, in order.
pub open spec fn stats_after(st: StatsView, s: Seq<RecordView>) -> StatsView
    decreases s.len(),
{
    if s.len() == 0 {
        st
    } else {
        stats_step(stats_after(st, s.drop_last()), s.last())
    }
}

/// The statistics of a whole corpus.
pub open spec fn corpus_stats(s: Seq<RecordView>) -> StatsView {
    stats_after(empty_stats(), s)
}

/// What one line of a file yielded: a record, or nothing for a malformed line.
pub open spec fn line_views(lines: Seq<Result<PackageRecord, DecodeError>>) -> Seq<
    Option<RecordView>,
> {
    lines.map_values(
        |l: Result<PackageRecord, DecodeError>|
            match l {
                Ok(p) => Some(p@),
                Err(_) => None,
            },
    )
}

/// The records among the outcomes of a file's lines, in order.
pub open spec fn ok_records(ls: Seq<Option<RecordView>>) -> Seq<RecordView>
    decreases ls.len(),
{
    if ls.len() == 0 {
        Seq::empty()
    } else {
        match ls.last() {
            Some(r) => ok_records(ls.drop_last()).push(r),
            None => ok_records(ls.drop_last()),
        }
    }
}

/// The positions of the malformed lines, in order.
pub open spec fn failed_lines(ls: Seq<Option<RecordView>>) -> Seq<int>
    decreases ls.len(),
{
    if ls.len() == 0 {
        Seq::empty()
    } else {
        match ls.last() {
            Some(_) => failed_lines(ls.drop_last()),
            None => failed_lines(ls.drop_last()).push(ls.len() - 1),
        }
    }
}

/// The value of a report.
pub struct ReportView {
    pub most_dependencies: LeaderView,
    pub most_dependents: LeaderView,
    pub most_features: LeaderView,
    pub most_versions: (Seq<char>, nat),
}

/// The report of finished statistics.
pub open spec fn report_of(st: StatsView) -> ReportView {
    ReportView {
        most_dependencies: st.most_dependencies,
        most_dependents: best_leader(st.dependents),
        most_features: st.most_features,
        most_versions: st.versions.leader,
    }
}

/// The four statistics of a run.
pub struct SharedData {
    most_dependencies: Leader,
    dependents: DependentsIndex,
    most_features: Leader,
    versions: VersionCounter,
    observed: u64,
}

impl View for SharedData {
    type V = StatsView;

    closed spec fn view(&self) -> StatsView {
        StatsView {
            most_dependencies: self.most_dependencies@,
            dependents: self.dependents@,
            most_features: self.most_features@,
            versions: self.versions@,
            observed: self.observed as nat,
        }
    }
}

/// The final statistics of a run, ready to be written out.
pub struct Report {
    most_dependencies: Leader,
    most_dependents: Leader,
    most_features: Leader,
    most_versions_name: String,
    most_versions_count: u64,
}

impl View for Report {
    type V = ReportView;

    closed spec fn view(&self) -> ReportView {
        ReportView {
            most_dependencies: self.most_dependencies@,
            most_dependents: self.most_dependents@,
            most_features: self.most_features@,
            most_versions: (self.most_versions_name@, self.most_versions_count as nat),
        }
    }
}

impl Report {
    /// The package with the most direct dependencies, with their names.
    pub fn most_dependencies(&self) -> (r: &Leader)
        ensures
            r@ == self@.most_dependencies,
    {
        &self.most_dependencies
    }

    /// The dependency with the most distinct dependents, with their names.
    pub fn most_dependents(&self) -> (r: &Leader)
        ensures
            r@ == self@.most_dependents,
    {
        &self.most_dependents
    }

    /// The package with the most feature flags, with their names.
    pub fn most_features(&self) -> (r: &Leader)
        ensures
            r@ == self@.most_features,
    {
        &self.most_features
    }

    /// The package name seen in the most records.
    pub fn most_versions_name(&self) -> (r: &String)
        ensures
            r@ == self@.most_versions.0,
    {
        &self.most_versions_name
    }

    /// How many records carry that name.
    pub fn most_versions_count(&self) -> (r: u64)
        ensures
            r as nat == self@.most_versions.1,
    {
        self.most_versions_count
    }
}

impl SharedData {
    /// The accumulators are consistent and no count exceeds the number of
    /// records observed.
    pub closed spec fn wf(&self) -> bool {
        &&& self.dependents.wf()
        &&& self.versions.wf()
        &&& forall|n: Seq<char>| count_of(self.versions@.counts, n) <= self.observed
    }

    pub fn new() -> (r: SharedData)
        ensures
            r.wf(),
            r@ == empty_stats(),
    {
        SharedData {
            most_dependencies: Leader::new(),
            dependents: DependentsIndex::new(),
            most_features: Leader::new(),
            versions: VersionCounter::new(),
            observed: 0,
        }
    }

    /// How many records have been fed in.
    pub fn observed(&self) -> (r: u64)
        ensures
            r as nat == self@.observed,
    {
        self.observed
    }

    /// Feeds one record into every accumulator.
    pub fn observe(&mut self, r: &PackageRecord)
        requires
            old(self).wf(),
            old(self)@.observed < u64::MAX,
        ensures
            final(self).wf(),
            final(self)@ == stats_step(old(self)@, r@),
    {
        let ghost c = self.versions@.counts;
        self.most_dependencies.offer(r.name(), r.deps());
        self.dependents.insert_all(r.deps(), r.name());
        self.most_features.offer(r.name(), r.features());
        self.versions.observe(r.name());
        self.observed = self.observed + 1;
        assert forall|n: Seq<char>| count_of(self.versions@.counts, n) <= self.observed by {
            lemma_counts_step(c, r@.name, n);
        }
    }

    /// The report of the statistics so far.
    pub fn report(&self) -> (r: Report)
        requires
            self.wf(),
        ensures
            r@ == report_of(self@),
    {
        let (name, count) = self.versions.leader();
        Report {
            most_dependencies: self.most_dependencies.copy(),
            most_dependents: self.dependents.best(),
            most_features: self.most_features.copy(),
            most_versions_name: name,
            most_versions_count: count,
        }
    }
}

/// Feeds the records among the decoded lines of one file into every
/// accumulator, skipping malformed lines, and gives the positions of the
/// malformed lines.
pub fn file_analysis(shared: &mut SharedData, lines: &Vec<Result<PackageRecord, DecodeError>>) -> (r:
    Vec<usize>)
    requires
        old(shared).wf(),
        old(shared)@.observed + lines@.len() <= u64::MAX,
    ensures
        final(shared).wf(),
        final(shared)@ == stats_after(old(shared)@, ok_records(line_views(lines@))),
        r@.map_values(|i: usize| i as int) == failed_lines(line_views(lines@)),
{
    let ghost start = shared@;
    let mut failed: Vec<usize> = Vec::new();
    let n = lines.len();
    let mut i: usize = 0;
    while i < n
        invariant
            n == lines@.len(),
            i <= n,
            shared.wf(),
            start.observed + n <= u64::MAX,
            shared@.observed <= start.observed + i,
            shared@ == stats_after(start, ok_records(line_views(lines@).take(i as int))),
            failed@.map_values(|k: usize| k as int) == failed_lines(
                line_views(lines@).take(i as int),
            ),
        decreases n - i,
    {
        let ghost ls = line_views(lines@);
        assert(ls.take(i + 1).drop_last() =~= ls.take(i as int));
        let ghost before = failed@;
        match &lines[i] {
            Ok(p) => {
                let ghost ok = ok_records(ls.take(i as int));
                assert(ls.take(i + 1).last() == Some(p@));
                assert(ok_records(ls.take(i + 1)) == ok.push(p@));
                assert(ok.push(p@).drop_last() =~= ok);
                shared.observe(p);
            },
            Err(_) => {
                assert(ls.take(i + 1).last() is None);
                failed.push(i);
                assert(failed@.map_values(|k: usize| k as int) =~= before.map_values(
                    |k: usize| k as int,
                ).push(i as int));
            },
        }
        i += 1;
    }
    assert(line_views(lines@).take(n as int) =~= line_views(lines@));
    failed
}

} // verus!
