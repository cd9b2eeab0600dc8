//! The record of one file, and how two records compare.

use std::cmp::Ordering;

use vstd::prelude::*;

use crate::order::{name_is_before, names_match, precedes, same_place, Record};
use crate::timestamp::Timestamp;

verus! {

/// Information of a file
#[derive(Clone, Debug)]
pub struct FileInformation {
    /// File name, byte for byte as the platform has it
    pub file_name: Vec<u8>,
    /// Length of the content in bytes
    pub size: u64,
    /// Timestamp
    pub timestamp: Timestamp,
}

impl View for FileInformation {
    type V = Record;

    open spec fn view(&self) -> Record {
        Record { name: self.file_name@, size: self.size as int, moment: self.timestamp@ }
    }
}

/// Where `a` stands in the manifest relative to `b`.
pub open spec fn placing(a: Record, b: Record) -> Ordering {
    if precedes(a, b) {
        Ordering::Less
    } else if precedes(b, a) {
        Ordering::Greater
    } else {
        Ordering::Equal
    }
}

impl FileInformation {
    /// Puts name, size and timestamp together.
    pub fn new(file_name: Vec<u8>, size: u64, timestamp: Timestamp) -> (file: FileInformation)
        ensures
            file.file_name == file_name,
            file.size == size,
            file.timestamp == timestamp,
    {
        FileInformation { file_name, size, timestamp }
    }

    /// Whether this record stands strictly before the other: its moment is
    /// earlier, or the moments are the same and its name comes first.
    pub fn precedes(&self, other: &FileInformation) -> (before: bool)
        ensures
            before == precedes(self@, other@),
    {
        if self.timestamp.is_before(&other.timestamp) {
            true
        } else if self.timestamp.is_same_moment(&other.timestamp) {
            name_is_before(&self.file_name, &other.file_name)
        } else {
            false
        }
    }

    /// Compares by timestamp first and by file name where the timestamps are
    /// the same moment.
    pub fn cmp(&self, other: &FileInformation) -> (order: Ordering)
        ensures
            order == placing(self@, other@),
            order == Ordering::Equal <==> same_place(self@, other@),
    {
        proof {
            crate::order::lemma_precedes_trichotomy(self@, other@);
        }
        if self.precedes(other) {
            Ordering::Less
        } else if other.precedes(self) {
            Ordering::Greater
        } else {
            Ordering::Equal
        }
    }
}

impl PartialEq for FileInformation {
    fn eq(&self, other: &FileInformation) -> (equal: bool) {
        self.timestamp.is_same_moment(&other.timestamp) && names_match(
            &self.file_name,
            &other.file_name,
        )
    }
}

impl vstd::std_specs::cmp::PartialEqSpecImpl for FileInformation {
    open spec fn obeys_eq_spec() -> bool {
        true
    }

    open spec fn eq_spec(&self, other: &FileInformation) -> bool {
        same_place(self@, other@)
    }
}

impl Eq for FileInformation {

}

impl PartialOrd for FileInformation {
    fn partial_cmp(&self, other: &FileInformation) -> (order: Option<Ordering>) {
        Some(self.cmp(other))
    }
}

impl vstd::std_specs::cmp::PartialOrdSpecImpl for FileInformation {
    open spec fn obeys_partial_cmp_spec() -> bool {
        true
    }

    open spec fn partial_cmp_spec(&self, other: &FileInformation) -> Option<Ordering> {
        Some(placing(self@, other@))
    }
}

} // verus!
