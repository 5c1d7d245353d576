//! The `verify` command: whether everything that the repository records is there
//! and intact.

pub mod archive;
pub mod backup;
pub mod info_files;
pub mod report;
pub mod run;
