//! Rich error reporting support: the cause-chain report that error events
//! attach as structured context.

pub mod error_report;
