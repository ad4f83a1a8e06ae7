//! Telemetry pipeline for a rooftop solar installation.
//!
//! The crate holds the decisions of the pipeline and none of its I/O: when a
//! cached portal credential may be reused, how one polling cycle moves from
//! fetching to sleeping, how a solar sample and its optional weather
//! enrichments become one reading, and how stored readings turn into rolling
//! averages and a day-partitioned history. Every quantity that the upstream
//! services report as a decimal number is carried as a count of thousandths
//! in an `i64`, and every instant as milliseconds since the Unix epoch.

pub mod background;
pub mod clock;
pub mod current;
pub mod forward;
pub mod goodwe;
pub mod history;
pub mod mean;
pub mod reading;
pub mod stats;
pub mod types;
pub mod upstream;
pub mod weather;
