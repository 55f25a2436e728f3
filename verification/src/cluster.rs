//! The cluster aggregator: the backends of a cluster, collected one after the
//! other.
//!
//! A run walks the backends in the order in which they were found. For each it
//! asks for the load page, then for the query page, and appends the backend's
//! jobs to those of the backends before it. The first page that fails ends the
//! run: there is no report of a part of the cluster.

use vstd::prelude::*;
use vstd::string::*;
use crate::collect::{
    backend_url, backend_url_of, collected_of, page_records_of, page_url_of, CollectStep,
    JobCollector, JobCollectorView, Page, PageKind, PageView,
};
use crate::record::{JobRecord, JobRecordView, ReportError};

verus! {

/// What a run holds, as mathematical values.
pub struct ClusterRunView {
    /// The addresses of the backends, in the order in which they were found.
    pub backends: Seq<Seq<char>>,
    /// How many backends have been collected.
    pub position: nat,
    /// The records of the load page of the backend at `position`, once that page
    /// has been taken.
    pub load_jobs: Option<Seq<JobRecordView>>,
    /// The jobs of the backends before `position`.
    pub jobs: Seq<JobRecordView>,
}

impl ClusterRunView {
    /// Whether every backend has been collected.
    pub open spec fn is_done(self) -> bool {
        self.position >= self.backends.len()
    }

    /// The page that the run awaits, where it is not done.
    pub open spec fn awaits(self) -> PageKind {
        if self.load_jobs is None {
            PageKind::Load
        } else {
            PageKind::Query
        }
    }

    /// The address to fetch next, or `None` where the run is done.
    pub open spec fn next_url(self) -> Option<Seq<char>> {
        if self.is_done() {
            None
        } else {
            Some(page_url_of(backend_url_of(self.backends[self.position as int]), self.awaits()))
        }
    }

    /// The run after it took `page` for the address it asked for: the load page
    /// of a backend is held back, its query page completes the backend, whose
    /// jobs are appended, those of the query page first. A page that fails ends
    /// the run with its error. A run that is done stays as it is.
    pub open spec fn step(self, page: PageView) -> Result<ClusterRunView, ReportError> {
        if self.is_done() {
            Ok(self)
        } else {
            match page_records_of(page, self.backends[self.position as int]) {
                Err(error) => Err(error),
                Ok(records) => match self.load_jobs {
                    None => Ok(ClusterRunView { load_jobs: Some(records), ..self }),
                    Some(load_jobs) => Ok(
                        ClusterRunView {
                            position: self.position + 1,
                            load_jobs: None,
                            jobs: self.jobs + (records + load_jobs),
                            ..self
                        },
                    ),
                },
            }
        }
    }
}

impl ClusterRunView {
    /// The run over `backends` that has collected none of them yet.
    pub open spec fn start(backends: Seq<Seq<char>>) -> ClusterRunView {
        ClusterRunView { backends, position: 0, load_jobs: None, jobs: Seq::empty() }
    }

    /// The run after it took `pages`, one after the other, or the error of the
    /// first page that failed.
    pub open spec fn after(self, pages: Seq<PageView>) -> Result<ClusterRunView, ReportError>
        decreases pages.len(),
    {
        if pages.len() == 0 {
            Ok(self)
        } else {
            match self.step(pages.first()) {
                Err(error) => Err(error),
                Ok(next) => next.after(pages.drop_first()),
            }
        }
    }
}

/// The jobs of a cluster whose backends answered with `pages`, two for each
/// backend, the load page before the query page: the jobs of each backend as
/// its collector gives them, in the order of the backends; or the error of the
/// first backend whose collector fails.
pub open spec fn aggregated_of(backends: Seq<Seq<char>>, pages: Seq<PageView>) -> Result<
    Seq<JobRecordView>,
    ReportError,
>
    decreases backends.len(),
{
    if backends.len() == 0 {
        Ok(Seq::empty())
    } else {
        match collected_of(pages[0], pages[1], backends[0]) {
            Err(error) => Err(error),
            Ok(jobs) => match aggregated_of(backends.drop_first(), pages.skip(2)) {
                Err(error) => Err(error),
                Ok(rest) => Ok(jobs + rest),
            },
        }
    }
}

/// A run that stands between two backends and takes the pages of the
/// backends that are left adds their jobs to its own, or fails as the first
/// of them that fails.
pub proof fn lemma_run_aggregates_from(run: ClusterRunView, pages: Seq<PageView>)
    requires
        run.position <= run.backends.len(),
        run.load_jobs is None,
        pages.len() == 2 * (run.backends.len() - run.position),
    ensures
        match run.after(pages) {
            Ok(end) => {
                &&& end.is_done()
                &&& end.backends == run.backends
                &&& aggregated_of(run.backends.skip(run.position as int), pages) is Ok
                &&& end.jobs == run.jobs + aggregated_of(
                    run.backends.skip(run.position as int),
                    pages,
                ).unwrap()
            },
            Err(error) => aggregated_of(run.backends.skip(run.position as int), pages) == Err::<
                Seq<JobRecordView>,
                _,
            >(error),
        },
    decreases run.backends.len() - run.position,
{
    let left = run.backends.skip(run.position as int);
    if run.position == run.backends.len() {
        assert(run.jobs + Seq::<JobRecordView>::empty() =~= run.jobs);
    } else {
        let backend = run.backends[run.position as int];
        assert(left[0] == backend);
        assert(left.drop_first() =~= run.backends.skip(run.position as int + 1));
        assert(pages.drop_first().first() == pages[1]);
        assert(pages.drop_first().drop_first() =~= pages.skip(2));
        reveal_with_fuel(ClusterRunView::after, 3);
        match run.step(pages[0]) {
            Err(error) => {},
            Ok(held) => match held.step(pages[1]) {
                Err(error) => {},
                Ok(next) => {
                    lemma_run_aggregates_from(next, pages.skip(2));
                    let jobs = collected_of(pages[0], pages[1], backend).unwrap();
                    assert(next.jobs == run.jobs + jobs);
                    match next.after(pages.skip(2)) {
                        Err(error) => {},
                        Ok(end) => {
                            let rest = aggregated_of(left.drop_first(), pages.skip(2)).unwrap();
                            assert(end.jobs =~= run.jobs + (jobs + rest));
                        },
                    }
                },
            },
        }
    }
}

/// A run over a cluster that takes two pages for each backend, the load page
/// before the query page, ends with the jobs of the backends in their order,
/// each backend's as its collector gives them; it fails with the first page
/// that fails, whatever the other backends would have answered.
pub proof fn lemma_run_aggregates(backends: Seq<Seq<char>>, pages: Seq<PageView>)
    requires
        pages.len() == 2 * backends.len(),
    ensures
        match ClusterRunView::start(backends).after(pages) {
            Ok(end) => end.is_done() && aggregated_of(backends, pages) == Ok::<_, ReportError>(
                end.jobs,
            ),
            Err(error) => aggregated_of(backends, pages) == Err::<Seq<JobRecordView>, _>(error),
        },
{
    let run = ClusterRunView::start(backends);
    lemma_run_aggregates_from(run, pages);
    assert(backends.skip(0) =~= backends);
    if run.after(pages) is Ok {
        let jobs = aggregated_of(backends, pages).unwrap();
        assert(run.jobs + jobs =~= jobs);
    }
}

/// Every job of a cluster is stamped with the address of one of its backends.
pub proof fn lemma_jobs_are_stamped_with_backends(backends: Seq<Seq<char>>, pages: Seq<PageView>)
    requires
        aggregated_of(backends, pages) is Ok,
    ensures
        forall|k: int|
            0 <= k < aggregated_of(backends, pages).unwrap().len() ==> backends.contains(
                (#[trigger] aggregated_of(backends, pages).unwrap()[k]).backend_address,
            ),
    decreases backends.len(),
{
    if backends.len() > 0 {
        let first = collected_of(pages[0], pages[1], backends[0]).unwrap();
        let rest = aggregated_of(backends.drop_first(), pages.skip(2)).unwrap();
        let load_jobs = page_records_of(pages[0], backends[0]).unwrap();
        let query_jobs = page_records_of(pages[1], backends[0]).unwrap();
        lemma_jobs_are_stamped_with_backends(backends.drop_first(), pages.skip(2));
        assert forall|k: int| 0 <= k < (first + rest).len() implies backends.contains(
            (#[trigger] (first + rest)[k]).backend_address,
        ) by {
            if k < query_jobs.len() {
                assert((first + rest)[k] == query_jobs[k]);
                assert(backends[0] == query_jobs[k].backend_address);
            } else if k < first.len() {
                assert((first + rest)[k] == load_jobs[k - query_jobs.len()]);
                assert(backends[0] == load_jobs[k - query_jobs.len()].backend_address);
            } else {
                let address = rest[k - first.len()].backend_address;
                assert(backends.drop_first().contains(address));
                let i = choose|i: int|
                    0 <= i < backends.drop_first().len() && backends.drop_first()[i] == address;
                assert(backends[i + 1] == address);
            }
        }
    }
}

/// The run of a report over the backends of a cluster.
#[derive(Debug)]
pub struct ClusterRun {
    backends: Vec<String>,
    position: usize,
    collector: Option<JobCollector>,
    jobs: Vec<JobRecord>,
}

impl View for ClusterRun {
    type V = ClusterRunView;

    closed spec fn view(&self) -> ClusterRunView {
        ClusterRunView {
            backends: self.backends.deep_view(),
            position: self.position as nat,
            load_jobs: match self.collector {
                Some(collector) => collector@.load_jobs,
                None => None,
            },
            jobs: self.jobs.deep_view(),
        }
    }
}

impl ClusterRun {
    #[verifier::type_invariant]
    spec fn collector_stands_at_position(self) -> bool {
        &&& self.position <= self.backends.len()
        &&& self.position == self.backends.len() ==> self.collector is None
        &&& self.position < self.backends.len() ==> {
            &&& self.collector matches Some(collector)
            &&& collector@.backend == self.backends[self.position as int]@
            &&& collector@.base_url == backend_url_of(self.backends[self.position as int]@)
        }
    }

    /// The collector of the backend at `position`, or `None` past the last.
    fn collector_at(backends: &Vec<String>, position: usize) -> (collector: Option<JobCollector>)
        ensures
            position >= backends.len() ==> collector is None,
            position < backends.len() ==> {
                &&& collector matches Some(c)
                &&& c@ == (JobCollectorView {
                    base_url: backend_url_of(backends[position as int]@),
                    backend: backends[position as int]@,
                    load_jobs: None,
                })
            },
    {
        if position < backends.len() {
            let backend = backends[position].as_str();
            let base = backend_url(backend);
            Some(JobCollector::new(base.as_str(), backend))
        } else {
            None
        }
    }

    /// A run over `backends` that has collected none of them yet.
    pub fn new(backends: Vec<String>) -> (run: ClusterRun)
        ensures
            run@ == (ClusterRunView {
                backends: backends.deep_view(),
                position: 0,
                load_jobs: None,
                jobs: Seq::empty(),
            }),
    {
        let collector = Self::collector_at(&backends, 0);
        let run = ClusterRun { backends, position: 0, collector, jobs: Vec::new() };
        assert(run.jobs.deep_view() =~= Seq::<JobRecordView>::empty());
        run
    }

    /// Whether every backend has been collected.
    pub fn is_done(&self) -> (done: bool)
        ensures
            done == self@.is_done(),
    {
        proof {
            use_type_invariant(self);
        }
        self.position >= self.backends.len()
    }

    /// The address to fetch next, or `None` where the run is done.
    pub fn next_url(&self) -> (url: Option<String>)
        ensures
            url is Some <==> self@.next_url() is Some,
            url matches Some(text) ==> Some(text@) == self@.next_url(),
    {
        proof {
            use_type_invariant(self);
        }
        match &self.collector {
            Some(collector) => Some(collector.next_url()),
            None => None,
        }
    }

    /// Takes what fetching the address of `next_url` brought, and hands out the
    /// run that follows or the error that ends it.
    pub fn accept(self, page: &Page) -> (out: Result<ClusterRun, ReportError>)
        ensures
            match out {
                Ok(run) => self@.step(page@) == Ok::<_, ReportError>(run@),
                Err(error) => self@.step(page@) == Err::<ClusterRunView, _>(error),
            },
    {
        proof {
            use_type_invariant(&self);
        }
        let ghost before = self@;
        let ClusterRun { backends, position, collector, jobs } = self;
        match collector {
            None => Ok(ClusterRun { backends, position, collector: None, jobs }),
            Some(collector) => {
                match collector.accept(page) {
                    CollectStep::Failed(error) => Err(error),
                    CollectStep::Next(collector) => Ok(
                        ClusterRun { backends, position, collector: Some(collector), jobs },
                    ),
                    CollectStep::Done(records) => {
                        let mut jobs = jobs;
                        let mut records = records;
                        let ghost added = records.deep_view();
                        jobs.append(&mut records);
                        assert(jobs.deep_view() =~= before.jobs + added);
                        let collector = Self::collector_at(&backends, position + 1);
                        Ok(ClusterRun { backends, position: position + 1, collector, jobs })
                    },
                }
            },
        }
    }

    /// The jobs of the cluster, in the order of its backends, once the run is
    /// done; `None` before that.
    pub fn finish(self) -> (jobs: Option<Vec<JobRecord>>)
        ensures
            jobs is Some <==> self@.is_done(),
            jobs matches Some(all) ==> all.deep_view() == self@.jobs,
    {
        proof {
            use_type_invariant(&self);
        }
        if self.position >= self.backends.len() {
            Some(self.jobs)
        } else {
            None
        }
    }
}

} // verus!
