//! Aggregation of named statistical measurements and their export.
//!
//! A simulation hands over batches of named accumulators. An exporter absorbs
//! every batch into its own running totals, one accumulator for each name in the
//! order in which the names were first seen, and reports the totals as a table.
//!
//! - `accumulate`: the interface of an accumulator, of which nothing is assumed.
//! - `measure`: named accumulators and the ordered registry that owns them.
//! - `aggregate`: what absorbing a batch means, and the laws that follow.
//! - `table`: the tables of the `prettytable` crate, behind trusted contracts.
//! - `width`: which texts such a table can measure, and so hold.
//! - `report`: what an export shows, and the text that goes before the table.
//! - `export`: the exporter interface and the exporter that keeps reports.
//!
//! The library does no input or output. It reads the system clock for the
//! uptime, and leaves the printing of a report to its user.
pub mod accumulate;
pub mod aggregate;
pub mod export;
pub mod measure;
pub mod report;
pub mod table;
pub mod width;
