//! Scoring of open-source packages named by GitHub or npm URLs: resolving a
//! package URL to its GitHub `owner/repo`, the integer parts of the metric
//! formulas, and the ranking in which scored packages are reported.
pub mod pattern;
pub mod url_handler;
pub mod ranking;
pub mod metrics;
pub mod logging;
