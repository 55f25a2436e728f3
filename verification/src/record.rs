//! The records of a report and the ways a run can fail.

use vstd::prelude::*;
use vstd::string::*;

verus! {

/// Why a run ended without a report.
#[derive(Clone, Copy, Debug, PartialEq, Eq, Structural)]
pub enum ReportError {
    /// A page could not be fetched: the transport failed, the status was no
    /// success, or what came was too long to be parsed.
    FetchError,
    /// The coordinator's rows hold no address column, or a row is too short for it.
    MalformedRow,
    /// A usage cell of a job row is no finite number at or above zero.
    UnparsableMetric,
    /// No coordinator host was left to ask.
    NoHostsSelected,
    /// A required input of the command line is absent.
    MissingArgument,
}

impl ReportError {
    /// What the error says to the person at the terminal.
    pub open spec fn message_text(self) -> Seq<char> {
        match self {
            ReportError::FetchError => "a page could not be fetched"@,
            ReportError::MalformedRow =>
                "the backend rows have no address column, or a row is too short for it"@,
            ReportError::UnparsableMetric => "a usage cell is no finite number at or above zero"@,
            ReportError::NoHostsSelected => "no coordinator host is left to ask"@,
            ReportError::MissingArgument => "a required input is missing"@,
        }
    }

    /// What the error says to the person at the terminal.
    pub fn message(&self) -> (text: String)
        ensures
            text@ == self.message_text(),
    {
        match self {
            ReportError::FetchError => String::from_str("a page could not be fetched"),
            ReportError::MalformedRow => String::from_str(
                "the backend rows have no address column, or a row is too short for it",
            ),
            ReportError::UnparsableMetric => String::from_str(
                "a usage cell is no finite number at or above zero",
            ),
            ReportError::NoHostsSelected => String::from_str("no coordinator host is left to ask"),
            ReportError::MissingArgument => String::from_str("a required input is missing"),
        }
    }

    /// The exit code of a process that ends on this error.
    pub open spec fn spec_exit_code(self) -> i32 {
        if self == ReportError::NoHostsSelected {
            0
        } else {
            1
        }
    }

    /// The exit code of a process that ends on this error: an empty choice of
    /// hosts is a clean exit, every other error is a failure.
    #[verifier::when_used_as_spec(spec_exit_code)]
    pub fn exit_code(self) -> (code: i32)
        ensures
            code == self.spec_exit_code(),
    {
        match self {
            ReportError::NoHostsSelected => 0,
            _ => 1,
        }
    }
}

/// The bit pattern of the largest finite double.
pub const MAX_FINITE_BITS: u64 = 0x7FEF_FFFF_FFFF_FFFF;

/// The bit pattern of the double zero with its sign bit set.
pub const NEGATIVE_ZERO_BITS: u64 = 0x8000_0000_0000_0000;

/// The metric that a reading stands for, if any. A reading is what reading a
/// usage text as a double gave: the bit pattern of the double, or `None` where
/// the text is no number. It is a metric when the double is finite and not
/// below zero, that is when its sign bit is clear and its exponent is not all
/// ones; zero with the sign bit set counts as zero.
pub open spec fn metric_of_reading(reading: Option<u64>) -> Option<u64> {
    match reading {
        Some(bits) => if bits <= MAX_FINITE_BITS {
            Some(bits)
        } else if bits == NEGATIVE_ZERO_BITS {
            Some(0u64)
        } else {
            None
        },
        None => None,
    }
}

/// A memory usage: a finite double at or above zero, held as its bit pattern.
/// Among such doubles the patterns, compared as integers, order as the numbers
/// do, so a metric is compared through `bits`.
#[derive(Clone, Copy, Debug, PartialEq, Eq, Structural)]
pub struct Metric {
    bits: u64,
}

impl View for Metric {
    type V = u64;

    closed spec fn view(&self) -> u64 {
        self.bits
    }
}

impl Metric {
    #[verifier::type_invariant]
    spec fn finite_and_not_below_zero(self) -> bool {
        self.bits <= MAX_FINITE_BITS
    }

    /// The metric of a reading, or `None` where the reading is no metric.
    pub fn from_reading(reading: Option<u64>) -> (metric: Option<Metric>)
        ensures
            metric is Some <==> metric_of_reading(reading) is Some,
            metric matches Some(m) ==> Some(m@) == metric_of_reading(reading),
    {
        match reading {
            Some(bits) => {
                if bits <= MAX_FINITE_BITS {
                    Some(Metric { bits })
                } else if bits == NEGATIVE_ZERO_BITS {
                    Some(Metric { bits: 0 })
                } else {
                    None
                }
            },
            None => None,
        }
    }

    /// The bit pattern of the double.
    pub fn bits(&self) -> (bits: u64)
        ensures
            bits == self@,
            bits <= MAX_FINITE_BITS,
    {
        proof {
            use_type_invariant(self);
        }
        self.bits
    }
}

/// What a job record holds, as mathematical values.
pub struct JobRecordView {
    pub job_type: Seq<char>,
    pub job_label: Seq<char>,
    pub job_limit: Seq<char>,
    pub current_bytes: u64,
    pub peak_bytes: u64,
    pub backend_address: Seq<char>,
}

/// The memory of one job on one backend.
#[derive(Clone, Debug)]
pub struct JobRecord {
    /// The category of the job, as its page labels it.
    pub job_type: String,
    /// The identifier of the job, as its page shows it.
    pub job_label: String,
    /// The configured memory limit, kept as the text of its cell.
    pub job_limit: String,
    /// The memory in use now.
    pub current_bytes: Metric,
    /// The most memory that was in use.
    pub peak_bytes: Metric,
    /// The address of the backend that reported the job.
    pub backend_address: String,
}

impl View for JobRecord {
    type V = JobRecordView;

    open spec fn view(&self) -> JobRecordView {
        JobRecordView {
            job_type: self.job_type@,
            job_label: self.job_label@,
            job_limit: self.job_limit@,
            current_bytes: self.current_bytes@,
            peak_bytes: self.peak_bytes@,
            backend_address: self.backend_address@,
        }
    }
}

impl DeepView for JobRecord {
    type V = JobRecordView;

    open spec fn deep_view(&self) -> JobRecordView {
        self@
    }
}

} // verus!
