use doris_resource_topn::cluster::ClusterRun;
use doris_resource_topn::collect::{
    backend_url, collect_jobs, merge_jobs, page_records, page_url, CollectStep, JobCollector, Page,
    PageKind,
};
use doris_resource_topn::rank::rank;
use doris_resource_topn::record::{JobRecord, ReportError};
use doris_resource_topn::scrape::{job_rows, JobRow, MeasuredRow};

fn read_number(text: &str) -> Option<u64> {
    text.parse::<f64>().ok().map(f64::to_bits)
}

fn fetched(rows: &[&[&str]]) -> Page {
    let cells: Vec<Vec<String>> =
        rows.iter().map(|row| row.iter().map(|cell| cell.to_string()).collect()).collect();
    let measured = job_rows(&cells)
        .into_iter()
        .map(|row: JobRow| {
            let current = read_number(&row.current_text);
            let peak = read_number(&row.peak_text);
            MeasuredRow { row, current, peak }
        })
        .collect();
    Page::Rows(measured)
}

fn labels(jobs: &[JobRecord]) -> Vec<String> {
    jobs.iter().map(|job| format!("{}@{}", job.job_label, job.backend_address)).collect()
}

#[test]
fn addresses_of_the_pages() {
    assert_eq!(backend_url("10.0.0.1"), "http://10.0.0.1:8040/mem_tracker");
    assert_eq!(
        page_url("http://10.0.0.1:8040/mem_tracker", PageKind::Load),
        "http://10.0.0.1:8040/mem_tracker?type=load"
    );
    assert_eq!(
        page_url("http://10.0.0.1:8040/mem_tracker", PageKind::Query),
        "http://10.0.0.1:8040/mem_tracker?type=query"
    );
    assert_eq!(page_url("", PageKind::Load), "?type=load");
}

#[test]
fn load_row_and_empty_query_page_give_one_record() {
    let load = fetched(&[&["MEMORY", "job-42", "x", "5GB", "1073741824", "y", "2147483648"]]);
    let query = fetched(&[]);
    let jobs = collect_jobs(&load, &query, "10.0.0.1").unwrap();
    assert_eq!(jobs.len(), 1);
    assert_eq!(jobs[0].job_type, "MEMORY");
    assert_eq!(jobs[0].job_label, "job-42");
    assert_eq!(jobs[0].job_limit, "5GB");
    assert_eq!(f64::from_bits(jobs[0].current_bytes.bits()), 1073741824.0);
    assert_eq!(f64::from_bits(jobs[0].peak_bytes.bits()), 2147483648.0);
    assert_eq!(jobs[0].backend_address, "10.0.0.1");
}

#[test]
fn query_jobs_come_before_load_jobs() {
    let load = fetched(&[
        &["load", "l1", "x", "1", "1", "y", "1"],
        &["load", "l2", "x", "1", "9", "y", "9"],
    ]);
    let query = fetched(&[
        &["query", "q1", "x", "1", "5", "y", "5"],
        &["query", "q2", "x", "1", "2", "y", "2"],
    ]);
    let jobs = collect_jobs(&load, &query, "b").unwrap();
    assert_eq!(labels(&jobs), vec!["q1@b", "q2@b", "l1@b", "l2@b"]);
    let merged = merge_jobs(
        page_records(&query, "b").unwrap(),
        page_records(&load, "b").unwrap(),
    );
    assert_eq!(labels(&merged), vec!["q1@b", "q2@b", "l1@b", "l2@b"]);
}

#[test]
fn first_failure_is_the_collectors() {
    let fine = fetched(&[&["load", "l1", "x", "1", "1", "y", "1"]]);
    let broken = fetched(&[&["load", "l1", "x", "1", "abc", "y", "1"]]);
    assert_eq!(collect_jobs(&Page::Failed, &fine, "b").err(), Some(ReportError::FetchError));
    assert_eq!(collect_jobs(&fine, &Page::Failed, "b").err(), Some(ReportError::FetchError));
    assert_eq!(collect_jobs(&broken, &fine, "b").err(), Some(ReportError::UnparsableMetric));
    assert_eq!(collect_jobs(&fine, &broken, "b").err(), Some(ReportError::UnparsableMetric));
    assert_eq!(collect_jobs(&Page::Failed, &broken, "b").err(), Some(ReportError::FetchError));
    assert_eq!(collect_jobs(&broken, &Page::Failed, "b").err(), Some(ReportError::UnparsableMetric));
    assert_eq!(page_records(&Page::Failed, "b").err(), Some(ReportError::FetchError));
}

#[test]
fn collector_asks_for_load_then_query() {
    let collector = JobCollector::new("http://10.0.0.1:8040/mem_tracker", "10.0.0.1");
    assert_eq!(collector.awaited(), PageKind::Load);
    assert_eq!(collector.next_url(), "http://10.0.0.1:8040/mem_tracker?type=load");
    let collector = match collector.accept(&fetched(&[&["load", "l", "x", "1", "1", "y", "1"]])) {
        CollectStep::Next(collector) => collector,
        other => panic!("{:?}", other),
    };
    assert_eq!(collector.awaited(), PageKind::Query);
    assert_eq!(collector.next_url(), "http://10.0.0.1:8040/mem_tracker?type=query");
    match collector.accept(&fetched(&[&["query", "q", "x", "1", "1", "y", "1"]])) {
        CollectStep::Done(jobs) => assert_eq!(labels(&jobs), vec!["q@10.0.0.1", "l@10.0.0.1"]),
        other => panic!("{:?}", other),
    }
}

#[test]
fn collector_fails_with_its_page() {
    let collector = JobCollector::new("u", "b");
    assert!(matches!(collector.accept(&Page::Failed), CollectStep::Failed(ReportError::FetchError)));
    let collector = JobCollector::new("u", "b");
    let collector = match collector.accept(&fetched(&[])) {
        CollectStep::Next(collector) => collector,
        other => panic!("{:?}", other),
    };
    let broken = fetched(&[&["query", "q", "x", "1", "1", "y", "nothing"]]);
    assert!(matches!(collector.accept(&broken), CollectStep::Failed(ReportError::UnparsableMetric)));
}

#[test]
fn run_walks_the_backends_in_order() {
    let mut run = ClusterRun::new(vec!["10.0.0.1".to_string(), "10.0.0.2".to_string()]);
    let pages = [
        fetched(&[&["load", "l1", "x", "1", "1", "y", "1"]]),
        fetched(&[&["query", "q1", "x", "1", "1", "y", "1"]]),
        fetched(&[]),
        fetched(&[&["query", "q2", "x", "1", "1", "y", "1"], &["query", "q3", "x", "1", "1", "y", "1"]]),
    ];
    let mut asked = Vec::new();
    for page in pages.iter() {
        assert!(!run.is_done());
        asked.push(run.next_url().unwrap());
        run = run.accept(page).unwrap();
    }
    assert_eq!(
        asked,
        vec![
            "http://10.0.0.1:8040/mem_tracker?type=load",
            "http://10.0.0.1:8040/mem_tracker?type=query",
            "http://10.0.0.2:8040/mem_tracker?type=load",
            "http://10.0.0.2:8040/mem_tracker?type=query",
        ]
    );
    assert!(run.is_done());
    assert_eq!(run.next_url(), None);
    let jobs = run.finish().unwrap();
    assert_eq!(labels(&jobs), vec!["q1@10.0.0.1", "l1@10.0.0.1", "q2@10.0.0.2", "q3@10.0.0.2"]);
}

#[test]
fn run_without_backends_is_done() {
    let run = ClusterRun::new(Vec::new());
    assert!(run.is_done());
    assert_eq!(run.next_url(), None);
    let run = run.accept(&Page::Failed).unwrap();
    assert_eq!(run.finish().unwrap().len(), 0);
}

#[test]
fn run_is_not_finished_before_its_last_page() {
    let run = ClusterRun::new(vec!["10.0.0.1".to_string()]);
    assert!(ClusterRun::new(vec!["10.0.0.1".to_string()]).finish().is_none());
    let run = run.accept(&fetched(&[])).unwrap();
    assert!(!run.is_done());
    assert!(run.finish().is_none());
}

#[test]
fn one_failing_backend_ends_the_run() {
    let run = ClusterRun::new(vec!["10.0.0.1".to_string(), "10.0.0.2".to_string()]);
    let run = run.accept(&fetched(&[&["load", "l1", "x", "1", "1", "y", "1"]])).unwrap();
    let run = run.accept(&fetched(&[])).unwrap();
    assert_eq!(run.accept(&Page::Failed).err(), Some(ReportError::FetchError));
    let run = ClusterRun::new(vec!["10.0.0.1".to_string()]);
    let broken = fetched(&[&["load", "l1", "x", "1", "abc", "y", "1"]]);
    assert_eq!(run.accept(&broken).err(), Some(ReportError::UnparsableMetric));
}

#[test]
fn greatest_of_two_backends_is_reported() {
    let mut run = ClusterRun::new(vec!["10.0.0.1".to_string(), "10.0.0.2".to_string()]);
    let pages = [
        fetched(&[&["load", "small", "x", "1", "500", "y", "500"]]),
        fetched(&[]),
        fetched(&[]),
        fetched(&[&["query", "large", "x", "1", "1000", "y", "1000"]]),
    ];
    for page in pages.iter() {
        run = run.accept(page).unwrap();
    }
    let report = rank(run.finish().unwrap(), 1);
    assert_eq!(report.len(), 1);
    assert_eq!(f64::from_bits(report[0].current_bytes.bits()), 1000.0);
    assert_eq!(report[0].job_label, "large");
    assert_eq!(report[0].backend_address, "10.0.0.2");
}
