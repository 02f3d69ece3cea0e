//! Latency benchmarking of DNS resolvers.
//!
//! A run probes a list of resolvers one by one. A probe sends a fixed number
//! of queries to one resolver and keeps the time of each query that was
//! answered with at least one record. A resolver that was measured is
//! reported with its times and their mean; at the end the measured resolvers
//! are ranked from fastest to slowest.
//!
//! This library holds the rules of such a run and proves what it states of
//! them. It opens no socket and reads no clock: the program around it
//! connects, sends and times each query, and prints the lines of the report.
//!
//! - [`config`]: the resolvers, the domains and the number of queries of a
//!   standard run.
//! - [`query`]: the choice of the domain of a query, and its DNS name.
//! - [`probe`]: the course of one probe, from the outcome of each query.
//! - [`stats`]: the mean of the measurements.
//! - [`ranking`]: the order of the resolvers by their mean.
//! - [`report`]: the lines that a run reports.
//! - [`text`]: numbers as decimal text.

pub mod config;
pub mod probe;
pub mod query;
pub mod ranking;
pub mod report;
pub mod stats;
pub mod text;
