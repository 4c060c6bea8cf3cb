//! Log ingestion core: extraction of structured records from text lines,
//! time-window filtering, batch loading, live tailing with a cursor that only
//! moves past complete lines, an append-only observation store and a
//! status-code summary.

pub mod record;
pub mod window;
pub mod extract;
pub mod batch;
pub mod tail;
pub mod store;
pub mod summary;
pub mod config;
