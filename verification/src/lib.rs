//! Verified core of a small system monitor: the conversions, selections and
//! text that turn raw machine readings into the figures of its metrics report.

pub mod units;
pub mod processes;
pub mod text;
pub mod port;
pub mod storage;
pub mod network;
pub mod report;
