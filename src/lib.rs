//! Random-access reading of ZIP archives: locating the trailer record,
//! loading the central directory and planning the extraction of entries.
pub mod directory;
pub mod entry;
pub mod error;
pub mod format;
pub mod laws;
pub mod read;
pub mod round_trip;
