//! JSON output support: the field value union, the verified document
//! encoder, the per-scope field store, and the default event formatter.

pub mod encode;
pub mod formatter;
pub mod storage;
pub mod value;
