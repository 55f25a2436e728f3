//! The table scraper: from the text of a diagnostic page to job records.
//!
//! A page is read in three steps. The page's table is cut into rows of cell
//! texts. The rows that have the shape of a job are kept, with their fields
//! taken from fixed columns. The caller reads the two usage texts of each kept
//! row as doubles, and the rows become records; one usage text that is no
//! number, or whose reading is no metric, fails the whole page.

use vstd::prelude::*;
use vstd::string::*;
use vstd::utf8::encode_utf8;
use crate::number::{is_number, number_syntax};
use crate::record::{metric_of_reading, JobRecord, JobRecordView, Metric, ReportError};
use crate::text::{trim, trimmed};

verus! {

/// The column of a table row that holds the job's type.
pub const TYPE_COLUMN: usize = 0;

/// The column that holds the job's label.
pub const LABEL_COLUMN: usize = 1;

/// The column that holds the job's memory limit.
pub const LIMIT_COLUMN: usize = 3;

/// The column that holds the memory in use now.
pub const CURRENT_COLUMN: usize = 4;

/// The column that holds the peak of the memory in use.
pub const PEAK_COLUMN: usize = 6;

/// The least number of cells that a job row has.
pub const JOB_ROW_CELLS: usize = 7;

/// The longest page, in bytes, that is parsed. The parser holds a text in
/// buffers whose lengths are 32-bit numbers and panics where one does not fit;
/// the bound leaves it room to write a text four times as long as the page.
pub const MAX_PAGE_BYTES: usize = 0x3FFF_FFFF;

/// The rows that the `scraper` crate finds in the page `html`: for each element
/// that its selector `table  tbody tr` matches, in the order in which
/// `Html::select` yields them, the texts of the `td` elements below it, each the
/// concatenation of the text nodes below the cell.
pub uninterp spec fn html_table_cells(html: Seq<char>) -> Seq<Seq<Seq<char>>>;

/// Parses `html` with `scraper::Html::parse_document`, selects the rows with
/// `Html::select` and the cells of each row with `ElementRef::select`, and
/// collects what `ElementRef::text` yields for each cell. The contract gives
/// that result its name and claims nothing else of it. The parser panics on a
/// text of more than `u32::MAX` bytes, which `requires` leaves out.
#[verifier::external_body]
fn table_cells(html: &str) -> (rows: Vec<Vec<String>>)
    requires
        encode_utf8(html@).len() <= MAX_PAGE_BYTES,
    ensures
        rows.deep_view() == html_table_cells(html@),
{
    let document = scraper::Html::parse_document(html);
    let row_selector = scraper::Selector::parse("table  tbody tr").unwrap();
    let cell_selector = scraper::Selector::parse("td").unwrap();
    document.select(&row_selector).map(
        |row| row.select(&cell_selector).map(|cell| cell.text().collect::<String>()).collect(),
    ).collect()
}

/// What a job row holds, as mathematical values.
pub struct JobRowView {
    pub job_type: Seq<char>,
    pub job_label: Seq<char>,
    pub job_limit: Seq<char>,
    pub current_text: Seq<char>,
    pub peak_text: Seq<char>,
}

/// A table row in the shape of a job, its two usage cells still text.
#[derive(Clone, Debug)]
pub struct JobRow {
    /// The type cell, trimmed.
    pub job_type: String,
    /// The label cell as it stands.
    pub job_label: String,
    /// The limit cell as it stands.
    pub job_limit: String,
    /// The cell of the memory in use now, trimmed.
    pub current_text: String,
    /// The cell of the peak, trimmed.
    pub peak_text: String,
}

impl View for JobRow {
    type V = JobRowView;

    open spec fn view(&self) -> JobRowView {
        JobRowView {
            job_type: self.job_type@,
            job_label: self.job_label@,
            job_limit: self.job_limit@,
            current_text: self.current_text@,
            peak_text: self.peak_text@,
        }
    }
}

impl DeepView for JobRow {
    type V = JobRowView;

    open spec fn deep_view(&self) -> JobRowView {
        self@
    }
}

/// Whether a row of cells has the shape of a job: at least seven cells, and a
/// type cell that is not empty once trimmed.
pub open spec fn is_job_row(cells: Seq<Seq<char>>) -> bool {
    cells.len() >= JOB_ROW_CELLS && trimmed(cells[TYPE_COLUMN as int]).len() > 0
}

/// The fields of a job row, each from its column. The cells in between belong to
/// no field.
pub open spec fn job_row_of(cells: Seq<Seq<char>>) -> JobRowView {
    JobRowView {
        job_type: trimmed(cells[TYPE_COLUMN as int]),
        job_label: cells[LABEL_COLUMN as int],
        job_limit: cells[LIMIT_COLUMN as int],
        current_text: trimmed(cells[CURRENT_COLUMN as int]),
        peak_text: trimmed(cells[PEAK_COLUMN as int]),
    }
}

/// The job rows of a table: the rows in the shape of a job, in the table's
/// order; the other rows are passed over.
pub open spec fn job_rows_of(rows: Seq<Seq<Seq<char>>>) -> Seq<JobRowView> {
    rows.filter(job_shape()).map_values(job_fields())
}

/// `is_job_row` as a predicate to filter by.
pub open spec fn job_shape() -> spec_fn(Seq<Seq<char>>) -> bool {
    |cells: Seq<Seq<char>>| is_job_row(cells)
}

/// `job_row_of` as a function to map by.
pub open spec fn job_fields() -> spec_fn(Seq<Seq<char>>) -> JobRowView {
    |cells: Seq<Seq<char>>| job_row_of(cells)
}

/// Appending one row to a table appends its job row to the table's job rows
/// where the row has the shape of a job, and nothing otherwise.
pub proof fn lemma_job_rows_push(rows: Seq<Seq<Seq<char>>>, cells: Seq<Seq<char>>)
    ensures
        job_rows_of(rows.push(cells)) == if is_job_row(cells) {
            job_rows_of(rows).push(job_row_of(cells))
        } else {
            job_rows_of(rows)
        },
{
    reveal(Seq::filter);
    let shape = job_shape();
    assert(rows.push(cells).drop_last() =~= rows);
    assert(rows.push(cells).last() == cells);
    if is_job_row(cells) {
        assert(rows.push(cells).filter(shape) == rows.filter(shape).push(cells));
        assert(job_rows_of(rows.push(cells)) =~= job_rows_of(rows).push(job_row_of(cells)));
    } else {
        assert(rows.push(cells).filter(shape) == rows.filter(shape));
    }
}

/// The job rows among `rows`.
pub fn job_rows(rows: &Vec<Vec<String>>) -> (out: Vec<JobRow>)
    ensures
        out.deep_view() == job_rows_of(rows.deep_view()),
{
    let mut out: Vec<JobRow> = Vec::new();
    let ghost all = rows.deep_view();
    proof {
        reveal(Seq::filter);
        assert(job_rows_of(all.take(0)) =~= Seq::<JobRowView>::empty());
    }
    let mut i: usize = 0;
    while i < rows.len()
        invariant
            i <= rows.len(),
            all == rows.deep_view(),
            out.deep_view() =~= job_rows_of(all.take(i as int)),
        decreases rows.len() - i,
    {
        let cells = &rows[i];
        let ghost texts = all[i as int];
        let ghost before = out.deep_view();
        proof {
            assert(texts =~= cells.deep_view());
            assert(all.take(i + 1) =~= all.take(i as int).push(texts));
            lemma_job_rows_push(all.take(i as int), texts);
        }
        if cells.len() >= JOB_ROW_CELLS {
            let job_type = trim(cells[TYPE_COLUMN].as_str());
            if !job_type.as_str().is_empty() {
                let row = JobRow {
                    job_type,
                    job_label: cells[LABEL_COLUMN].clone(),
                    job_limit: cells[LIMIT_COLUMN].clone(),
                    current_text: trim(cells[CURRENT_COLUMN].as_str()),
                    peak_text: trim(cells[PEAK_COLUMN].as_str()),
                };
                assert(row@ == job_row_of(texts));
                out.push(row);
                assert(out.deep_view() =~= before.push(job_row_of(texts)));
            }
        }
        i = i + 1;
    }
    proof {
        assert(all.take(rows.len() as int) =~= all);
    }
    out
}

/// The job rows of the page `html`, or `None` where the page is longer than
/// `MAX_PAGE_BYTES` and is not parsed.
pub fn scrape_job_rows(html: &str) -> (out: Option<Vec<JobRow>>)
    ensures
        out is Some <==> encode_utf8(html@).len() <= MAX_PAGE_BYTES,
        out matches Some(rows) ==> rows.deep_view() == job_rows_of(html_table_cells(html@)),
{
    if html.as_bytes().len() > MAX_PAGE_BYTES {
        return None;
    }
    let rows = table_cells(html);
    Some(job_rows(&rows))
}

/// What a measured row holds, as mathematical values.
pub struct MeasuredRowView {
    pub row: JobRowView,
    pub current: Option<u64>,
    pub peak: Option<u64>,
}

/// A job row together with what reading its two usage texts as doubles gave:
/// for each the bit pattern of the double, or `None` where the text is no
/// number.
#[derive(Clone, Debug)]
pub struct MeasuredRow {
    /// The row.
    pub row: JobRow,
    /// The reading of `row.current_text`.
    pub current: Option<u64>,
    /// The reading of `row.peak_text`.
    pub peak: Option<u64>,
}

impl View for MeasuredRow {
    type V = MeasuredRowView;

    open spec fn view(&self) -> MeasuredRowView {
        MeasuredRowView { row: self.row@, current: self.current, peak: self.peak }
    }
}

impl DeepView for MeasuredRow {
    type V = MeasuredRowView;

    open spec fn deep_view(&self) -> MeasuredRowView {
        self@
    }
}

/// The metric that a usage text and its reading stand for, if any: the text
/// must be a number, and its reading a metric.
pub open spec fn metric_of(text: Seq<char>, reading: Option<u64>) -> Option<u64> {
    if number_syntax(text) {
        metric_of_reading(reading)
    } else {
        None
    }
}

/// Whether both usage texts of a row stand for metrics.
pub open spec fn has_metrics(row: MeasuredRowView) -> bool {
    &&& metric_of(row.row.current_text, row.current) is Some
    &&& metric_of(row.row.peak_text, row.peak) is Some
}

/// The record of a row whose readings are metrics, reported by `backend`.
pub open spec fn record_of(row: MeasuredRowView, backend: Seq<char>) -> JobRecordView {
    JobRecordView {
        job_type: row.row.job_type,
        job_label: row.row.job_label,
        job_limit: row.row.job_limit,
        current_bytes: metric_of(row.row.current_text, row.current).unwrap(),
        peak_bytes: metric_of(row.row.peak_text, row.peak).unwrap(),
        backend_address: backend,
    }
}

/// The records of a page's rows: one for each row, in order, where every
/// usage text stands for a metric; otherwise the page fails as a whole.
pub open spec fn records_of(rows: Seq<MeasuredRowView>, backend: Seq<char>) -> Result<
    Seq<JobRecordView>,
    ReportError,
> {
    if forall|i: int| 0 <= i < rows.len() ==> has_metrics(#[trigger] rows[i]) {
        Ok(rows.map_values(|row: MeasuredRowView| record_of(row, backend)))
    } else {
        Err(ReportError::UnparsableMetric)
    }
}

/// The metric of the usage text `text`, read as `reading`.
pub fn usage_metric(text: &str, reading: Option<u64>) -> (metric: Option<Metric>)
    ensures
        metric is Some <==> metric_of(text@, reading) is Some,
        metric matches Some(m) ==> Some(m@) == metric_of(text@, reading),
{
    if is_number(text) {
        Metric::from_reading(reading)
    } else {
        None
    }
}

/// The record of `row`, reported by `backend`, or `UnparsableMetric` where one
/// of its usage texts stands for no metric.
pub fn job_record(row: &MeasuredRow, backend: &str) -> (out: Result<JobRecord, ReportError>)
    ensures
        has_metrics(row@) ==> out is Ok && out.unwrap()@ == record_of(row@, backend@),
        !has_metrics(row@) ==> out == Err::<JobRecord, _>(ReportError::UnparsableMetric),
{
    let current = match usage_metric(row.row.current_text.as_str(), row.current) {
        Some(metric) => metric,
        None => { return Err(ReportError::UnparsableMetric); },
    };
    let peak = match usage_metric(row.row.peak_text.as_str(), row.peak) {
        Some(metric) => metric,
        None => { return Err(ReportError::UnparsableMetric); },
    };
    Ok(
        JobRecord {
            job_type: row.row.job_type.clone(),
            job_label: row.row.job_label.clone(),
            job_limit: row.row.job_limit.clone(),
            current_bytes: current,
            peak_bytes: peak,
            backend_address: String::from_str(backend),
        },
    )
}

/// The records of a page's rows, each stamped with `backend`. The first row
/// with a usage text that stands for no metric ends the page with
/// `UnparsableMetric`, and no record of the page is handed out.
pub fn job_records(rows: &Vec<MeasuredRow>, backend: &str) -> (out: Result<
    Vec<JobRecord>,
    ReportError,
>)
    ensures
        match out {
            Ok(records) => records_of(rows.deep_view(), backend@) == Ok::<_, ReportError>(
                records.deep_view(),
            ),
            Err(error) => records_of(rows.deep_view(), backend@) == Err::<Seq<JobRecordView>, _>(
                error,
            ),
        },
{
    let mut records: Vec<JobRecord> = Vec::new();
    let ghost all = rows.deep_view();
    let mut i: usize = 0;
    while i < rows.len()
        invariant
            i <= rows.len(),
            all == rows.deep_view(),
            records.len() == i,
            forall|k: int| 0 <= k < i ==> has_metrics(#[trigger] all[k]),
            forall|k: int| 0 <= k < i ==> (#[trigger] records[k])@ == record_of(all[k], backend@),
        decreases rows.len() - i,
    {
        assert(all[i as int] == rows[i as int]@);
        match job_record(&rows[i], backend) {
            Ok(record) => {
                records.push(record);
            },
            Err(error) => {
                return Err(error);
            },
        }
        i = i + 1;
    }
    proof {
        assert(records.deep_view() =~= all.map_values(
            |row: MeasuredRowView| record_of(row, backend@),
        ));
    }
    Ok(records)
}

/// The rows `rows`, each with the readings that `read` gives for its two usage
/// texts.
pub open spec fn measured_with(
    rows: Seq<JobRowView>,
    read: spec_fn(Seq<char>) -> Option<u64>,
) -> Seq<MeasuredRowView> {
    rows.map_values(
        |row: JobRowView|
            MeasuredRowView { row, current: read(row.current_text), peak: read(row.peak_text) },
    )
}

/// What scraping a table gives when usage texts are read by `read`: the records
/// of its job rows, or the failure of the page.
pub open spec fn scraped(
    table: Seq<Seq<Seq<char>>>,
    read: spec_fn(Seq<char>) -> Option<u64>,
    backend: Seq<char>,
) -> Result<Seq<JobRecordView>, ReportError> {
    records_of(measured_with(job_rows_of(table), read), backend)
}

/// A table whose rows all have the shape of a job keeps every row, in order.
pub proof fn lemma_job_rows_of_job_shaped(table: Seq<Seq<Seq<char>>>)
    requires
        forall|i: int| 0 <= i < table.len() ==> is_job_row(#[trigger] table[i]),
    ensures
        job_rows_of(table) == table.map_values(job_fields()),
    decreases table.len(),
{
    let fields = job_fields();
    if table.len() == 0 {
        reveal(Seq::filter);
        assert(job_rows_of(table) =~= table.map_values(fields));
    } else {
        let front = table.drop_last();
        lemma_job_rows_of_job_shaped(front);
        lemma_job_rows_push(front, table.last());
        assert(front.push(table.last()) =~= table);
        assert(front.map_values(fields).push(job_row_of(table.last())) =~= table.map_values(
            fields,
        ));
    }
}

/// Of a table in which every row has a type cell that is not blank, at least
/// seven cells, and usage cells that are numbers and read as metrics, scraping
/// yields exactly one record per row, in the table's order, with the type from
/// column 0 (trimmed), the label from column 1, the limit from column 3, the
/// current usage from column 4 and the peak from column 6, stamped with the
/// backend.
pub proof fn lemma_well_formed_rows_yield_one_record_each(
    table: Seq<Seq<Seq<char>>>,
    read: spec_fn(Seq<char>) -> Option<u64>,
    backend: Seq<char>,
)
    requires
        forall|i: int|
            0 <= i < table.len() ==> {
                &&& is_job_row(#[trigger] table[i])
                &&& number_syntax(trimmed(table[i][4]))
                &&& number_syntax(trimmed(table[i][6]))
                &&& metric_of_reading(read(trimmed(table[i][4]))) is Some
                &&& metric_of_reading(read(trimmed(table[i][6]))) is Some
            },
    ensures
        scraped(table, read, backend) is Ok,
        scraped(table, read, backend).unwrap().len() == table.len(),
        forall|i: int|
            0 <= i < table.len() ==> (#[trigger] scraped(table, read, backend).unwrap()[i])
                == (JobRecordView {
                job_type: trimmed(table[i][0]),
                job_label: table[i][1],
                job_limit: table[i][3],
                current_bytes: metric_of_reading(read(trimmed(table[i][4]))).unwrap(),
                peak_bytes: metric_of_reading(read(trimmed(table[i][6]))).unwrap(),
                backend_address: backend,
            }),
{
    lemma_job_rows_of_job_shaped(table);
    let rows = measured_with(job_rows_of(table), read);
    assert forall|i: int| 0 <= i < rows.len() implies has_metrics(#[trigger] rows[i]) by {
        assert(is_job_row(table[i]));
    }
}

/// A row that has fewer than seven cells, or a type cell that is blank, leaves
/// no trace in what is scraped: the table with the row and the table without it
/// give the same job rows, so the same records or the same failure.
pub proof fn lemma_other_rows_are_passed_over(
    before: Seq<Seq<Seq<char>>>,
    cells: Seq<Seq<char>>,
    after: Seq<Seq<Seq<char>>>,
)
    requires
        cells.len() < 7 || trimmed(cells[0]).len() == 0,
    ensures
        job_rows_of(before.push(cells) + after) == job_rows_of(before + after),
        forall|read: spec_fn(Seq<char>) -> Option<u64>, backend: Seq<char>|
            #[trigger] scraped(before.push(cells) + after, read, backend) == scraped(
                before + after,
                read,
                backend,
            ),
{
    let shape = job_shape();
    assert(before.push(cells).filter(shape) == before.filter(shape)) by {
        reveal(Seq::filter);
        assert(before.push(cells).drop_last() =~= before);
        assert(!shape(cells));
    }
    Seq::filter_distributes_over_add(before.push(cells), after, shape);
    Seq::filter_distributes_over_add(before, after, shape);
    assert((before.push(cells) + after).filter(shape) == (before + after).filter(shape));
}

/// Whether `row` holds the fields of some row of `table` in the shape of a job.
pub open spec fn stems_from_job_row(table: Seq<Seq<Seq<char>>>, row: JobRowView) -> bool {
    exists|i: int|
        0 <= i < table.len() && is_job_row(#[trigger] table[i]) && row == job_row_of(table[i])
}

/// Scraping keeps only rows in the shape of a job, and scraping what was kept
/// keeps all of it: every job row that comes out stems from a row of that
/// shape, and the rows of that shape alone give the same job rows as the
/// whole table.
pub proof fn lemma_only_job_shaped_rows_are_kept(table: Seq<Seq<Seq<char>>>)
    ensures
        job_rows_of(table).len() <= table.len(),
        forall|k: int|
            0 <= k < job_rows_of(table).len() ==> stems_from_job_row(
                table,
                #[trigger] job_rows_of(table)[k],
            ),
        job_rows_of(table.filter(job_shape())) == job_rows_of(table),
{
    let shape = job_shape();
    let kept = table.filter(shape);
    table.lemma_filter_len(shape);
    assert forall|k: int| 0 <= k < kept.len() implies is_job_row(#[trigger] kept[k]) by {
        table.lemma_filter_pred(shape, k);
        assert(shape(kept[k]));
    }
    assert forall|k: int| 0 <= k < job_rows_of(table).len() implies stems_from_job_row(
        table,
        #[trigger] job_rows_of(table)[k],
    ) by {
        assert(job_rows_of(table)[k] == job_row_of(kept[k]));
        assert(kept.contains(kept[k]));
        table.lemma_filter_contains_rev(shape, kept[k]);
        let i = choose|i: int| 0 <= i < table.len() && table[i] == kept[k];
        assert(is_job_row(kept[k]));
        assert(is_job_row(table[i]));
    }
    lemma_job_rows_of_job_shaped(kept);
}

} // verus!
