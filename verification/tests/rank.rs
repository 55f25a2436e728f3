use doris_resource_topn::rank::{rank, sort_descending};
use doris_resource_topn::record::{JobRecord, Metric, ReportError};
use doris_resource_topn::report::{header, report_row};

fn job(label: &str, current: f64) -> JobRecord {
    JobRecord {
        job_type: "load".to_string(),
        job_label: label.to_string(),
        job_limit: "none".to_string(),
        current_bytes: Metric::from_reading(Some(current.to_bits())).unwrap(),
        peak_bytes: Metric::from_reading(Some((current * 2.0).to_bits())).unwrap(),
        backend_address: "10.0.0.1".to_string(),
    }
}

fn usages(jobs: &[JobRecord]) -> Vec<f64> {
    jobs.iter().map(|job| f64::from_bits(job.current_bytes.bits())).collect()
}

#[test]
fn top_one_of_two() {
    let report = rank(vec![job("a", 500.0), job("b", 1000.0)], 1);
    assert_eq!(report.len(), 1);
    assert_eq!(report[0].job_label, "b");
    assert_eq!(usages(&report), vec![1000.0]);
}

#[test]
fn report_is_sorted_and_cut() {
    let jobs = || vec![job("a", 3.0), job("b", 0.5), job("c", 7e9), job("d", 0.0), job("e", 42.0)];
    assert_eq!(usages(&rank(jobs(), 3)), vec![7e9, 42.0, 3.0]);
    assert_eq!(usages(&rank(jobs(), 5)), vec![7e9, 42.0, 3.0, 0.5, 0.0]);
    assert_eq!(usages(&rank(jobs(), 1000)), vec![7e9, 42.0, 3.0, 0.5, 0.0]);
    assert_eq!(usages(&rank(jobs(), usize::MAX)), vec![7e9, 42.0, 3.0, 0.5, 0.0]);
    assert_eq!(rank(jobs(), 0).len(), 0);
    assert_eq!(rank(Vec::new(), 0).len(), 0);
    assert_eq!(rank(Vec::new(), 10).len(), 0);
}

#[test]
fn sorting_keeps_every_record() {
    let sorted = sort_descending(vec![job("a", 1.0), job("b", 2.0), job("c", 1.0), job("d", 3.0)]);
    assert_eq!(usages(&sorted), vec![3.0, 2.0, 1.0, 1.0]);
    let mut labels: Vec<&str> = sorted.iter().map(|job| job.job_label.as_str()).collect();
    labels.sort();
    assert_eq!(labels, vec!["a", "b", "c", "d"]);
    assert_eq!(f64::from_bits(sorted[0].peak_bytes.bits()), 6.0);
    assert_eq!(sort_descending(Vec::new()).len(), 0);
}

#[test]
fn ties_are_all_kept_up_to_the_cut() {
    let report = rank(vec![job("a", 5.0), job("b", 5.0), job("c", 5.0), job("d", 9.0)], 3);
    assert_eq!(usages(&report), vec![9.0, 5.0, 5.0]);
    assert_eq!(report[0].job_label, "d");
}

#[test]
fn exit_codes() {
    assert_eq!(ReportError::NoHostsSelected.exit_code(), 0);
    assert_eq!(ReportError::MissingArgument.exit_code(), 1);
    assert_eq!(ReportError::FetchError.exit_code(), 1);
    assert_eq!(ReportError::MalformedRow.exit_code(), 1);
    assert_eq!(ReportError::UnparsableMetric.exit_code(), 1);
}

#[test]
fn messages() {
    assert_eq!(ReportError::FetchError.message(), "a page could not be fetched");
    assert_eq!(
        ReportError::MalformedRow.message(),
        "the backend rows have no address column, or a row is too short for it"
    );
    assert_eq!(
        ReportError::UnparsableMetric.message(),
        "a usage cell is no finite number at or above zero"
    );
    assert_eq!(ReportError::NoHostsSelected.message(), "no coordinator host is left to ask");
    assert_eq!(ReportError::MissingArgument.message(), "a required input is missing");
}

#[test]
fn rows_of_a_report() {
    assert_eq!(
        header(),
        vec![
            "No",
            "job_label",
            "current_consumption_gb",
            "job_limit",
            "job_type",
            "peak_consumption_gb",
            "be_ip"
        ]
    );
    let mut record = job(" job-42 ", 1073741824.0);
    record.job_limit = " 5GB\n".to_string();
    record.job_type = "\tMEMORY ".to_string();
    record.backend_address = " 10.0.0.1".to_string();
    assert_eq!(
        report_row(0, &record, "1", "2"),
        vec!["1", "job-42", "1", "5GB", "MEMORY", "2", " 10.0.0.1"]
    );
    assert_eq!(report_row(999, &record, " 0.5 ", "")[0], "1000");
    assert_eq!(report_row(999, &record, " 0.5 ", "")[2], " 0.5 ");
    assert_eq!(report_row(usize::MAX, &record, "", "")[0], (usize::MAX as u128 + 1).to_string());
}
