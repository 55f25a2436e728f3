//! The reporter's rows: what the table of a report shows for each job.
//!
//! The table itself is drawn by the caller, and so is the text of a usage in
//! gibibytes, which is a division of doubles.

use vstd::prelude::*;
use vstd::string::*;
use crate::record::{JobRecord, JobRecordView};
use crate::text::{decimal, decimal_text, trim, trimmed};

verus! {

/// The titles of the columns of a report.
pub open spec fn header_of() -> Seq<Seq<char>> {
    seq![
        "No"@,
        "job_label"@,
        "current_consumption_gb"@,
        "job_limit"@,
        "job_type"@,
        "peak_consumption_gb"@,
        "be_ip"@,
    ]
}

/// The titles of the columns of a report.
pub fn header() -> (titles: Vec<String>)
    ensures
        titles.deep_view() == header_of(),
{
    let mut titles: Vec<String> = Vec::new();
    titles.push(String::from_str("No"));
    titles.push(String::from_str("job_label"));
    titles.push(String::from_str("current_consumption_gb"));
    titles.push(String::from_str("job_limit"));
    titles.push(String::from_str("job_type"));
    titles.push(String::from_str("peak_consumption_gb"));
    titles.push(String::from_str("be_ip"));
    assert(titles.deep_view() =~= header_of());
    titles
}

/// The cells of the row of the job at `position` in a report, counted from 0:
/// its number, counted from 1; its label; its current usage in gibibytes; its
/// limit; its type; its peak in gibibytes; and its backend. Label, limit and
/// type are trimmed.
pub open spec fn row_of(
    position: nat,
    job: JobRecordView,
    current_gib: Seq<char>,
    peak_gib: Seq<char>,
) -> Seq<Seq<char>> {
    seq![
        decimal_text(position + 1),
        trimmed(job.job_label),
        current_gib,
        trimmed(job.job_limit),
        trimmed(job.job_type),
        peak_gib,
        job.backend_address,
    ]
}

/// The cells of the row of `job`, which stands at `position` in a report. The
/// texts of its two usages in gibibytes are the caller's.
pub fn report_row(position: usize, job: &JobRecord, current_gib: &str, peak_gib: &str) -> (cells:
    Vec<String>)
    ensures
        cells.deep_view() == row_of(position as nat, job@, current_gib@, peak_gib@),
{
    let mut cells: Vec<String> = Vec::new();
    cells.push(decimal(position as u128 + 1));
    cells.push(trim(job.job_label.as_str()));
    cells.push(String::from_str(current_gib));
    cells.push(trim(job.job_limit.as_str()));
    cells.push(trim(job.job_type.as_str()));
    cells.push(String::from_str(peak_gib));
    cells.push(job.backend_address.clone());
    assert(cells.deep_view() =~= row_of(position as nat, job@, current_gib@, peak_gib@));
    cells
}

} // verus!
