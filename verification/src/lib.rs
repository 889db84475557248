//! A key-value store kept as an append-only log of records, with an index
//! from each live key to the bytes of the record that set it.
//!
//! The store is [`KvStore`]. Its log is an [`InDiskLogV1`], the image of
//! the log file; reading the file and writing to it is left to the caller.
//! What holds of the store, whatever is done with it, is stated in
//! [`laws`].

pub mod document;
pub mod error;
pub mod laws;
pub mod log;
pub mod record;
pub mod replay;
pub mod store;

pub use crate::error::KvsError;
pub use crate::log::{read_with_offset, InDiskLogV1};
pub use crate::record::LogRecord;
pub use crate::store::KvStore;
