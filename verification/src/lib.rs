//! Top-N memory report for the jobs of a distributed query cluster.
//!
//! The coordinator of the cluster lists its backends as rows of text; each
//! backend shows the memory of its jobs on two diagnostic pages. This library
//! holds the rules that turn those answers into a ranked report:
//!
//! - `request`: which coordinator host is asked, at which address, with which
//!   credentials;
//! - `address`: which column of the coordinator's rows is the address, with
//!   the syntax of addresses in `ip`;
//! - `scrape`: which rows of a page's table are jobs and what their fields
//!   are, with the syntax of usage numbers in `number`;
//! - `collect` and `cluster`: in what order the pages of a backend and the
//!   backends of a cluster are asked for and merged, and that the first
//!   failure ends the run;
//! - `rank`: which jobs are reported, and in what order;
//! - `report`: what the table of the report shows for each of them.
//!
//! Fetching a page, reading a number's text as a double, writing a double as
//! text and drawing the table are the caller's work. A double is carried as
//! its bit pattern: see `record::Metric`.

pub mod address;
pub mod cluster;
pub mod collect;
pub mod ip;
pub mod number;
pub mod rank;
pub mod record;
pub mod report;
pub mod request;
pub mod scrape;
pub mod text;

pub use record::{JobRecord, JobRecordView, Metric, ReportError};
