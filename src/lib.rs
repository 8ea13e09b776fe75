//! Indexing of a package repository's metadata archive: the metadata format,
//! grouping of archive entries into package records, admission of package
//! workers, and selection of unit files from package archives.

pub mod desc;
pub mod dispatch;
pub mod group;
pub mod process;
mod text;
pub mod units;
