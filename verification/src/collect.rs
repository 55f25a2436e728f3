//! The job collector: the two pages of one backend, asked for in turn and
//! merged.
//!
//! Fetching is the caller's work. The collector says which page it awaits, takes
//! what the fetch brought, and either awaits the next page, hands out the
//! backend's records, or fails; after a failure no further page is asked for.

use vstd::prelude::*;
use vstd::string::*;
use crate::record::{JobRecord, JobRecordView, ReportError};
use crate::scrape::{job_records, records_of, MeasuredRow, MeasuredRowView};

verus! {

/// The two diagnostic pages of a backend.
#[derive(Clone, Copy, Debug, PartialEq, Eq, Structural)]
pub enum PageKind {
    /// The page of the load jobs.
    Load,
    /// The page of the query jobs.
    Query,
}

/// The address of the diagnostic page of the backend at `address`.
pub open spec fn backend_url_of(address: Seq<char>) -> Seq<char> {
    "http://"@ + address + ":8040/mem_tracker"@
}

/// The address of one page below the diagnostic address `base`.
pub open spec fn page_url_of(base: Seq<char>, kind: PageKind) -> Seq<char> {
    match kind {
        PageKind::Load => base + "?type=load"@,
        PageKind::Query => base + "?type=query"@,
    }
}

/// The address of the diagnostic page of the backend at `address`.
pub fn backend_url(address: &str) -> (url: String)
    ensures
        url@ == backend_url_of(address@),
{
    String::from_str("http://").concat(address).concat(":8040/mem_tracker")
}

/// The address of one page below the diagnostic address `base`.
pub fn page_url(base: &str, kind: PageKind) -> (url: String)
    ensures
        url@ == page_url_of(base@, kind),
{
    match kind {
        PageKind::Load => String::from_str(base).concat("?type=load"),
        PageKind::Query => String::from_str(base).concat("?type=query"),
    }
}

/// What a fetched page holds, as mathematical values.
pub enum PageView {
    Failed,
    Rows(Seq<MeasuredRowView>),
}

/// What fetching one page brought.
#[derive(Clone, Debug)]
pub enum Page {
    /// No page was had: the transport failed, the status was no success, or
    /// what came was too long to be parsed.
    Failed,
    /// The job rows of the page that came, with their readings.
    Rows(Vec<MeasuredRow>),
}

impl View for Page {
    type V = PageView;

    open spec fn view(&self) -> PageView {
        match self {
            Page::Failed => PageView::Failed,
            Page::Rows(rows) => PageView::Rows(rows.deep_view()),
        }
    }
}

/// The records of a fetched page, each stamped with `backend`: `FetchError`
/// where the fetch failed, `UnparsableMetric` where a reading is no metric.
pub open spec fn page_records_of(page: PageView, backend: Seq<char>) -> Result<
    Seq<JobRecordView>,
    ReportError,
> {
    match page {
        PageView::Failed => Err(ReportError::FetchError),
        PageView::Rows(rows) => records_of(rows, backend),
    }
}

/// The records of a fetched page, each stamped with `backend`.
pub fn page_records(page: &Page, backend: &str) -> (out: Result<Vec<JobRecord>, ReportError>)
    ensures
        match out {
            Ok(records) => page_records_of(page@, backend@) == Ok::<_, ReportError>(
                records.deep_view(),
            ),
            Err(error) => page_records_of(page@, backend@) == Err::<Seq<JobRecordView>, _>(
                error,
            ),
        },
{
    match page {
        Page::Failed => Err(ReportError::FetchError),
        Page::Rows(rows) => job_records(rows, backend),
    }
}

/// What the job collector of one backend returns for its two pages: the
/// records of the query page followed by those of the load page. The load page
/// is taken first, and the first failure is the collector's.
pub open spec fn collected_of(load: PageView, query: PageView, backend: Seq<char>) -> Result<
    Seq<JobRecordView>,
    ReportError,
> {
    match page_records_of(load, backend) {
        Err(error) => Err(error),
        Ok(load_jobs) => match page_records_of(query, backend) {
            Err(error) => Err(error),
            Ok(query_jobs) => Ok(query_jobs + load_jobs),
        },
    }
}

/// The jobs of a backend in the order of a report: those of its query page,
/// then those of its load page.
pub fn merge_jobs(query_jobs: Vec<JobRecord>, load_jobs: Vec<JobRecord>) -> (jobs: Vec<JobRecord>)
    ensures
        jobs.deep_view() == query_jobs.deep_view() + load_jobs.deep_view(),
{
    let mut jobs = query_jobs;
    let mut rest = load_jobs;
    jobs.append(&mut rest);
    jobs
}

/// What a job collector holds, as mathematical values.
pub struct JobCollectorView {
    /// The diagnostic address of the backend.
    pub base_url: Seq<char>,
    /// The address that the records are stamped with.
    pub backend: Seq<char>,
    /// The records of the load page, once it has been taken.
    pub load_jobs: Option<Seq<JobRecordView>>,
}

impl JobCollectorView {
    /// The page that the collector awaits.
    pub open spec fn awaits(self) -> PageKind {
        if self.load_jobs is None {
            PageKind::Load
        } else {
            PageKind::Query
        }
    }
}

/// The collector of one backend's jobs, between its two pages.
#[derive(Debug)]
pub struct JobCollector {
    base_url: String,
    backend: String,
    load_jobs: Option<Vec<JobRecord>>,
}

/// What a step of a job collector gave, as mathematical values.
pub enum CollectStepView {
    Next(JobCollectorView),
    Done(Seq<JobRecordView>),
    Failed(ReportError),
}

/// What taking one page gave.
#[derive(Debug)]
pub enum CollectStep {
    /// The collector, now awaiting its second page.
    Next(JobCollector),
    /// The records of the backend.
    Done(Vec<JobRecord>),
    /// The page failed, and with it the collector.
    Failed(ReportError),
}

impl View for JobCollector {
    type V = JobCollectorView;

    closed spec fn view(&self) -> JobCollectorView {
        JobCollectorView {
            base_url: self.base_url@,
            backend: self.backend@,
            load_jobs: match self.load_jobs {
                Some(jobs) => Some(jobs.deep_view()),
                None => None,
            },
        }
    }
}

impl View for CollectStep {
    type V = CollectStepView;

    open spec fn view(&self) -> CollectStepView {
        match self {
            CollectStep::Next(collector) => CollectStepView::Next(collector@),
            CollectStep::Done(jobs) => CollectStepView::Done(jobs.deep_view()),
            CollectStep::Failed(error) => CollectStepView::Failed(*error),
        }
    }
}

/// What a collector does with the page it awaited.
pub open spec fn collect_step_of(collector: JobCollectorView, page: PageView) -> CollectStepView {
    match page_records_of(page, collector.backend) {
        Err(error) => CollectStepView::Failed(error),
        Ok(jobs) => match collector.load_jobs {
            None => CollectStepView::Next(
                JobCollectorView { load_jobs: Some(jobs), ..collector },
            ),
            Some(load_jobs) => CollectStepView::Done(jobs + load_jobs),
        },
    }
}

impl JobCollector {
    /// A collector for the backend at `backend`, whose pages stand below
    /// `base_url`. It awaits the load page.
    pub fn new(base_url: &str, backend: &str) -> (collector: JobCollector)
        ensures
            collector@ == (JobCollectorView {
                base_url: base_url@,
                backend: backend@,
                load_jobs: None,
            }),
    {
        JobCollector {
            base_url: String::from_str(base_url),
            backend: String::from_str(backend),
            load_jobs: None,
        }
    }

    /// The page that the collector awaits.
    pub fn awaited(&self) -> (kind: PageKind)
        ensures
            kind == self@.awaits(),
    {
        match &self.load_jobs {
            None => PageKind::Load,
            Some(_) => PageKind::Query,
        }
    }

    /// The address to fetch the awaited page from.
    pub fn next_url(&self) -> (url: String)
        ensures
            url@ == page_url_of(self@.base_url, self@.awaits()),
    {
        page_url(self.base_url.as_str(), self.awaited())
    }

    /// Takes what fetching the awaited page brought.
    pub fn accept(self, page: &Page) -> (step: CollectStep)
        ensures
            step@ == collect_step_of(self@, page@),
    {
        let JobCollector { base_url, backend, load_jobs } = self;
        match page_records(page, backend.as_str()) {
            Err(error) => CollectStep::Failed(error),
            Ok(jobs) => match load_jobs {
                None => CollectStep::Next(JobCollector { base_url, backend, load_jobs: Some(jobs) }),
                Some(load) => CollectStep::Done(merge_jobs(jobs, load)),
            },
        }
    }
}

/// The jobs of one backend from its two pages, both at hand: the records of
/// the query page followed by those of the load page, or the first failure,
/// the load page's before the query page's.
pub fn collect_jobs(load: &Page, query: &Page, backend: &str) -> (out: Result<
    Vec<JobRecord>,
    ReportError,
>)
    ensures
        match out {
            Ok(jobs) => collected_of(load@, query@, backend@) == Ok::<_, ReportError>(
                jobs.deep_view(),
            ),
            Err(error) => collected_of(load@, query@, backend@) == Err::<Seq<JobRecordView>, _>(
                error,
            ),
        },
{
    let load_jobs = match page_records(load, backend) {
        Ok(jobs) => jobs,
        Err(error) => { return Err(error); },
    };
    let query_jobs = match page_records(query, backend) {
        Ok(jobs) => jobs,
        Err(error) => { return Err(error); },
    };
    Ok(merge_jobs(query_jobs, load_jobs))
}

/// A collector that takes the load page of its backend and then the query
/// page ends as `collected_of` says: it fails with the first page that fails,
/// and hands out the jobs of both pages otherwise.
pub proof fn lemma_collector_takes_two_pages(
    base_url: Seq<char>,
    backend: Seq<char>,
    load: PageView,
    query: PageView,
)
    ensures
        match collect_step_of(JobCollectorView { base_url, backend, load_jobs: None }, load) {
            CollectStepView::Failed(error) => collected_of(load, query, backend) == Err::<
                Seq<JobRecordView>,
                _,
            >(error),
            CollectStepView::Done(_) => false,
            CollectStepView::Next(collector) => collector.awaits() == PageKind::Query
                && match collect_step_of(collector, query) {
                CollectStepView::Failed(error) => collected_of(load, query, backend) == Err::<
                    Seq<JobRecordView>,
                    _,
                >(error),
                CollectStepView::Done(jobs) => collected_of(load, query, backend) == Ok::<
                    _,
                    ReportError,
                >(jobs),
                CollectStepView::Next(_) => false,
            },
        },
{
}

} // verus!
