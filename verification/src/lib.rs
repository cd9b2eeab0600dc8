//! A chronological manifest of the files of one directory.
//!
//! Each regular file is placed by the moment its content was made: the capture
//! time embedded in its metadata where there is one, the file system's
//! modification time otherwise. The records are ordered by that moment, then by
//! name, and written out as CSV.

pub mod application;
pub mod capture;
pub mod directory;
pub mod file;
pub mod guarantees;
pub mod manifest;
pub mod order;
pub mod overwrite;
pub mod program_options;
pub mod sort;
pub mod timestamp;
