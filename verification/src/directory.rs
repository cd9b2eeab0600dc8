//! Reading what a directory listing reported into records.

use vstd::prelude::*;

use crate::capture::{embedded_moment, embedded_timestamp, CaptureTag};
use crate::file::FileInformation;
use crate::order::Record;
use crate::sort::{is_sorting_of, records, sort};
use crate::timestamp::{representable, simultaneous, Timestamp};

verus! {

/// What kind of thing a directory entry is.
#[derive(Clone, Copy, Debug, PartialEq, Eq)]
pub enum FileKind {
    /// An ordinary file with content.
    File,
    /// A directory.
    Directory,
    /// A symbolic link, whatever it points to.
    Symlink,
    /// Anything else: a device, a socket, a pipe.
    Other,
}

/// What the file system keeps about a file besides its content.
#[derive(Debug)]
pub struct Metadata {
    /// Length of the content in bytes.
    pub len: u64,
    /// When the content was last modified, in UTC, or why that is not known.
    pub modified: Result<Timestamp, String>,
}

/// Everything that was asked of one directory entry, with the answers.
#[derive(Debug)]
pub struct DirectoryEntry {
    /// The base name, byte for byte as the platform has it.
    pub file_name: Vec<u8>,
    /// The kind of the entry, or why it could not be told.
    pub file_type: Result<FileKind, String>,
    /// The metadata, or why it could not be read.
    pub metadata: Result<Metadata, String>,
    /// What the search for a capture time in the file came to, where the
    /// file could be opened.
    pub capture: Option<CaptureTag>,
}

/// Why a directory could not be read into records. Each holds the
/// description that the file system gave.
#[derive(Clone, Debug, PartialEq, Eq)]
pub enum ReadError {
    /// The directory could not hand out one of its entries.
    Entry(String),
    /// The kind of an entry could not be told.
    FileType(String),
    /// The metadata of a file could not be read.
    Metadata(String),
    /// A file without capture time has no modification time either.
    Modified(String),
}

impl ReadError {
    /// The description that the file system gave.
    pub fn description(&self) -> (text: &String)
        ensures
            *text == match *self {
                ReadError::Entry(given) => given,
                ReadError::FileType(given) => given,
                ReadError::Metadata(given) => given,
                ReadError::Modified(given) => given,
            },
    {
        match self {
            ReadError::Entry(given) => given,
            ReadError::FileType(given) => given,
            ReadError::Metadata(given) => given,
            ReadError::Modified(given) => given,
        }
    }
}

/// Whether the entry is a regular file. A directory, a symbolic link or a
/// special file is not.
pub open spec fn is_regular(entry: DirectoryEntry) -> bool {
    entry.file_type == Ok::<FileKind, String>(FileKind::File)
}

/// The error that reading this entry ends in, if it ends in one.
///
/// The kind is asked first, and what is no regular file is left alone. Of a
/// regular file the metadata is needed. The modification time is needed only
/// where the file carries no capture time.
pub open spec fn entry_failure(entry: DirectoryEntry) -> Option<ReadError> {
    match entry.file_type {
        Err(given) => Some(ReadError::FileType(given)),
        Ok(FileKind::File) => match entry.metadata {
            Err(given) => Some(ReadError::Metadata(given)),
            Ok(metadata) => match (embedded_moment(entry.capture), metadata.modified) {
                (None, Err(given)) => Some(ReadError::Modified(given)),
                _ => None,
            },
        },
        Ok(_) => None,
    }
}

/// Whether `record` is the row that the regular file `entry` gets.
///
/// Name and size are the entry's. The moment is the capture time embedded in
/// the file where there is one, offset included. Otherwise it is the
/// modification time, shown at whatever offset the local zone has then.
pub open spec fn describes(entry: DirectoryEntry, record: Record) -> bool {
    &&& is_regular(entry)
    &&& entry_failure(entry) is None
    &&& record.name == entry.file_name@
    &&& entry.metadata matches Ok(metadata)
    &&& record.size == metadata.len
    &&& match embedded_moment(entry.capture) {
        Some(moment) => record.moment == moment,
        None => {
            &&& metadata.modified matches Ok(modified)
            &&& simultaneous(record.moment, modified@)
            &&& representable(record.moment.seconds, record.moment.nanos, record.moment.offset)
        },
    }
}

/// Whether `kind` is that of a regular file.
pub fn classify(kind: FileKind) -> (regular: bool)
    ensures
        regular == (kind == FileKind::File),
{
    match kind {
        FileKind::File => true,
        _ => false,
    }
}

/// The timestamp that places a file: the embedded capture time where one
/// was found, else the modification time in the local zone, else the reason
/// why there is no modification time.
pub fn resolve(embedded: Option<Timestamp>, modified: Result<Timestamp, String>) -> (resolved:
    Result<Timestamp, ReadError>)
    ensures
        match (embedded, modified) {
            (Some(found), _) => resolved == Ok::<Timestamp, ReadError>(found),
            (None, Ok(given)) => {
                &&& resolved matches Ok(timestamp)
                &&& simultaneous(timestamp@, given@)
                &&& representable(timestamp@.seconds, timestamp@.nanos, timestamp@.offset)
            },
            (None, Err(given)) => resolved == Err::<Timestamp, ReadError>(
                ReadError::Modified(given),
            ),
        },
{
    match embedded {
        Some(found) => Ok(found),
        None => match modified {
            Ok(given) => Ok(given.in_local_zone()),
            Err(given) => Err(ReadError::Modified(given)),
        },
    }
}

/// Read and return information about a file
///
/// Takes what was asked of the entry and uses the time the photo was taken,
/// where the file carries it. If there is none, the modified time of the
/// file in the file system is used instead. An entry that is no regular file
/// gives no information.
pub fn read_file(entry: DirectoryEntry) -> (read: Result<Option<FileInformation>, ReadError>)
    ensures
        match read {
            Ok(Some(file)) => describes(entry, file@),
            Ok(None) => !is_regular(entry) && entry_failure(entry) is None,
            Err(error) => entry_failure(entry) == Some(error),
        },
{
    let DirectoryEntry { file_name, file_type, metadata, capture } = entry;
    let kind = match file_type {
        Ok(kind) => kind,
        Err(given) => {
            return Err(ReadError::FileType(given));
        },
    };
    if !classify(kind) {
        return Ok(None);
    }
    let Metadata { len, modified } = match metadata {
        Ok(metadata) => metadata,
        Err(given) => {
            return Err(ReadError::Metadata(given));
        },
    };
    match resolve(embedded_timestamp(capture), modified) {
        Ok(timestamp) => Ok(Some(FileInformation::new(file_name, len, timestamp))),
        Err(error) => Err(error),
    }
}

/// Reads one entry and, where it is a regular file, puts its record at the
/// end of `files`. Where the entry cannot be read, `files` stay as they are.
pub fn collect(files: &mut Vec<FileInformation>, entry: DirectoryEntry) -> (done: Result<
    (),
    ReadError,
>)
    ensures
        match done {
            Err(error) => entry_failure(entry) == Some(error) && final(files)@ == old(files)@,
            Ok(_) => entry_failure(entry) is None && joined(old(files)@, entry, final(files)@),
        },
{
    match read_file(entry) {
        Ok(Some(file)) => {
            files.push(file);
            assert(files@.drop_last() =~= old(files)@);
            Ok(())
        },
        Ok(None) => Ok(()),
        Err(error) => Err(error),
    }
}

/// Whether `grown` are the files `before` with the record of `entry` at the
/// end, where it is a regular file, and the same files where it is not.
pub open spec fn joined(
    before: Seq<FileInformation>,
    entry: DirectoryEntry,
    grown: Seq<FileInformation>,
) -> bool {
    if is_regular(entry) {
        &&& grown.len() == before.len() + 1
        &&& grown.drop_last() == before
        &&& describes(entry, grown.last()@)
    } else {
        grown == before
    }
}

/// The error that this item of a listing ends the reading in, if it does.
pub open spec fn listing_failure(item: Result<DirectoryEntry, String>) -> Option<ReadError> {
    match item {
        Err(given) => Some(ReadError::Entry(given)),
        Ok(entry) => entry_failure(entry),
    }
}

/// Whether `rows` are the rows of the regular files of `listing`, one for
/// each, in the order of the listing, and nothing in the listing failed.
pub open spec fn harvested(listing: Seq<Result<DirectoryEntry, String>>, rows: Seq<Record>) -> bool
    decreases listing.len(),
{
    if listing.len() == 0 {
        rows.len() == 0
    } else {
        match listing.last() {
            Err(_) => false,
            Ok(entry) => if is_regular(entry) {
                &&& rows.len() > 0
                &&& describes(entry, rows.last())
                &&& harvested(listing.drop_last(), rows.drop_last())
            } else {
                &&& entry_failure(entry) is None
                &&& harvested(listing.drop_last(), rows)
            },
        }
    }
}

/// Read and return information about files in a directory
///
/// Takes what the directory handed out, entry by entry, and attempts to find
/// the time each photo was taken. For files where that fails, the modified
/// time in the file system is used instead. What is no regular file is left
/// out. The first entry that cannot be read ends the reading with its error;
/// otherwise the files come back sorted by timestamp, then by name.
pub fn read_directory(directory: Vec<Result<DirectoryEntry, String>>) -> (read: Result<
    Vec<FileInformation>,
    ReadError,
>)
    ensures
        read is Ok <==> forall|at: int|
            0 <= at < directory.len() ==> listing_failure(#[trigger] directory[at]) is None,
        read matches Ok(files) ==> exists|rows: Seq<Record>|
            #[trigger] harvested(directory@, rows) && is_sorting_of(records(files@), rows),
        read matches Err(error) ==> exists|at: int|
            {
                &&& 0 <= at < directory.len()
                &&& listing_failure(#[trigger] directory[at]) == Some(error)
                &&& forall|before: int|
                    0 <= before < at ==> listing_failure(#[trigger] directory[before]) is None
            },
{
    let ghost listing = directory@;
    let mut files: Vec<FileInformation> = Vec::new();
    proof {
        assert(listing.take(0) =~= Seq::empty());
        assert(records(files@) =~= Seq::empty());
    }
    for item in it: directory.into_iter()
        invariant
            it.seq() == listing,
            harvested(listing.take(it.index() as int), records(files@)),
            forall|before: int|
                0 <= before < it.index() ==> listing_failure(#[trigger] listing[before]) is None,
    {
        let ghost at = it.index() as int;
        let ghost so_far = files@;
        proof {
            assert(listing.take(at + 1).drop_last() =~= listing.take(at));
            assert(listing.take(at + 1).last() == listing[at]);
        }
        let entry = match item {
            Ok(entry) => entry,
            Err(given) => {
                return Err(ReadError::Entry(given));
            },
        };
        // Put it with the files only if the entry gave information
        match collect(&mut files, entry) {
            Ok(_) => {
                proof {
                    if is_regular(entry) {
                        assert(records(files@) =~= records(so_far).push(files@.last()@));
                        assert(records(files@).drop_last() =~= records(so_far));
                    }
                }
            },
            Err(error) => {
                return Err(error);
            },
        }
    }
    let ghost rows = records(files@);
    // Sort the list by timestamp
    let sorted = sort(files);
    proof {
        assert(listing.take(listing.len() as int) =~= listing);
        assert(harvested(listing, rows) && is_sorting_of(records(sorted@), rows));
    }
    Ok(sorted)
}

} // verus!
