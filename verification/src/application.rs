//! The steps of the program, as decisions on what to do next.
//!
//! The program around this library does the work on files and on the
//! terminal. After each piece of work it reports what came of it, and
//! [`run`] answers with the next piece of work.

use vstd::prelude::*;

use crate::capture::{embedded_moment, embedded_timestamp, CaptureTag};
use crate::directory::{
    classify, collect, entry_failure, joined, DirectoryEntry, FileKind, Metadata, ReadError,
};
use crate::file::FileInformation;
use crate::manifest::{manifest_bytes, write_manifest, EncodingError};
use crate::order::Record;
use crate::overwrite::{agrees, confirms_overwrite};
use crate::program_options::Parameters;
use crate::sort::{is_sorting_of, records, sort};
use crate::timestamp::Timestamp;

verus! {

/// Why the output file could not be created anew.
#[derive(Debug)]
pub struct CreateError {
    /// Whether the reason is that the file is there already.
    pub already_exists: bool,
    /// The description that the file system gave.
    pub description: String,
}

/// What a directory says of an entry when it hands it out.
#[derive(Debug)]
pub struct Found {
    /// The base name, byte for byte as the platform has it.
    pub file_name: Vec<u8>,
    /// The kind of the entry, or why it could not be told.
    pub file_type: Result<FileKind, String>,
}

/// What the program is waiting for.
#[derive(Debug)]
pub enum Stage {
    /// Nothing has been asked for yet.
    Start,
    /// The output file is being created anew.
    Creating,
    /// The user is being asked whether to overwrite the output file. Holds
    /// the description of why it could not be created.
    Asking {
        /// What the file system said when the file was found to exist.
        conflict: String,
    },
    /// The output file is being emptied.
    Truncating,
    /// The directory is being opened.
    Listing,
    /// The next entry of the directory is being fetched.
    Reading {
        /// The files read until now, in the order of the directory.
        files: Vec<FileInformation>,
    },
    /// A regular file is being looked into.
    Opening {
        /// The files read until now, in the order of the directory.
        files: Vec<FileInformation>,
        /// The name of the file that is being read.
        file_name: Vec<u8>,
    },
    /// The modification time of a file without capture time is being asked
    /// for.
    Dating {
        /// The files read until now, in the order of the directory.
        files: Vec<FileInformation>,
        /// The name of the file that is being read.
        file_name: Vec<u8>,
        /// The length of its content in bytes.
        len: u64,
    },
    /// The manifest is being written out.
    Writing,
    /// The program has ended.
    Done,
}

/// What came of the work that was asked for.
#[derive(Debug)]
pub enum Event {
    /// The program has started.
    Started,
    /// The output file was created anew, or could not be.
    Created(Result<(), CreateError>),
    /// The user's answer was read, as one line, or could not be.
    Answered(Result<String, String>),
    /// The output file was emptied, or could not be.
    Truncated(Result<(), String>),
    /// The directory was opened, or could not be.
    Listed(Result<(), String>),
    /// The directory handed out its next entry, or failed to, or has no more.
    Entry(Option<Result<Found, String>>),
    /// The file that the directory handed out last was looked into.
    Opened {
        /// The length of the content in bytes, or why the metadata could not
        /// be read.
        len: Result<u64, String>,
        /// What the search for a capture time in the file came to, where
        /// the file could be opened.
        capture: Option<CaptureTag>,
    },
    /// The modification time of that file was asked for: here it is, in UTC,
    /// or why it is not known.
    Modified(Result<Timestamp, String>),
    /// The manifest was written out and flushed, or could not be.
    Written(Result<(), String>),
}

/// Why the program ended without a manifest.
#[derive(Clone, Debug, PartialEq, Eq)]
pub enum Failure {
    /// The output file exists and the user did not agree to overwrite it.
    OutputExists(String),
    /// The output file could not be created or emptied.
    Output(String),
    /// The user's answer could not be read.
    Answer(String),
    /// The directory could not be opened.
    Directory(String),
    /// An entry of the directory could not be read.
    Read(ReadError),
    /// The manifest could not be put into CSV.
    Encoding(EncodingError),
    /// The manifest could not be written out.
    Write(String),
    /// What was reported is no answer to what was asked for.
    OutOfTurn,
}

/// The work to do next.
#[derive(Debug)]
pub enum Action {
    /// Create the output file anew; fail if it exists.
    CreateOutput,
    /// Tell the user that the output file exists, and read one line.
    AskOverwrite,
    /// Open the output file, emptying it.
    TruncateOutput,
    /// Open the directory named in the parameters.
    ListDirectory,
    /// Open the current working directory.
    ListWorkingDirectory,
    /// Fetch the next entry of the directory, with its name and kind.
    NextEntry,
    /// Read the metadata of the entry fetched last, and search it for its
    /// capture time.
    ReadFile,
    /// Ask the metadata read last for the modification time.
    ReadModified,
    /// Write these bytes to the output and flush it.
    Write(Vec<u8>),
    /// End with success.
    Succeed,
    /// End with this failure.
    Fail(Failure),
}

impl Failure {
    /// The one line that tells the user what went wrong.
    pub fn description(&self) -> (text: String)
        ensures
            text@ == self.description_text(),
    {
        match self {
            Failure::OutputExists(given) => given.clone(),
            Failure::Output(given) => given.clone(),
            Failure::Answer(given) => given.clone(),
            Failure::Directory(given) => given.clone(),
            Failure::Read(error) => error.description().clone(),
            Failure::Encoding(error) => error.description.clone(),
            Failure::Write(given) => given.clone(),
            Failure::OutOfTurn => "event out of turn".to_owned(),
        }
    }

    /// The text of [`Failure::description`]: what the file system or the CSV
    /// writer said, unchanged.
    pub open spec fn description_text(&self) -> Seq<char> {
        match *self {
            Failure::OutputExists(given) => given@,
            Failure::Output(given) => given@,
            Failure::Answer(given) => given@,
            Failure::Directory(given) => given@,
            Failure::Read(ReadError::Entry(given)) => given@,
            Failure::Read(ReadError::FileType(given)) => given@,
            Failure::Read(ReadError::Metadata(given)) => given@,
            Failure::Read(ReadError::Modified(given)) => given@,
            Failure::Encoding(error) => error.description@,
            Failure::Write(given) => given@,
            Failure::OutOfTurn => "event out of turn"@,
        }
    }
}

/// The first piece of work: with an output file named, to create it anew;
/// without one, to open the directory, the output being the standard one.
pub open spec fn first_action(parameters: Parameters) -> (Stage, Action) {
    if parameters.output is Some {
        (Stage::Creating, Action::CreateOutput)
    } else {
        listing_action(parameters)
    }
}

/// The opening of the directory that the parameters name, or of the current
/// working directory where they name none.
pub open spec fn listing_action(parameters: Parameters) -> (Stage, Action) {
    if parameters.directory is Some {
        (Stage::Listing, Action::ListDirectory)
    } else {
        (Stage::Listing, Action::ListWorkingDirectory)
    }
}

/// The end of the program with a failure.
pub open spec fn failing(failure: Failure) -> (Stage, Action) {
    (Stage::Done, Action::Fail(failure))
}

/// What follows an entry that the directory handed out: a failure where the
/// entry or its kind could not be had, the next entry where it is no regular
/// file, and a look into the file where it is one.
pub open spec fn found_action(files: Vec<FileInformation>, found: Result<Found, String>) -> (
    Stage,
    Action,
) {
    match found {
        Err(given) => failing(Failure::Read(ReadError::Entry(given))),
        Ok(found) => match found.file_type {
            Err(given) => failing(Failure::Read(ReadError::FileType(given))),
            Ok(FileKind::File) => (
                Stage::Opening { files, file_name: found.file_name },
                Action::ReadFile,
            ),
            Ok(_) => (Stage::Reading { files }, Action::NextEntry),
        },
    }
}

/// Whether the event is one that [`transition`] does not cover: a directory
/// that was opened, a file that was looked into or dated, or the end of the
/// directory. What follows these is stated by [`follows_listing`],
/// [`follows_opened`], [`follows_file`] and [`follows_end`].
pub open spec fn is_harvest(stage: Stage, event: Event) -> bool {
    ||| stage is Listing && event matches Event::Listed(Ok(_))
    ||| stage is Opening && event is Opened
    ||| stage is Dating && event is Modified
    ||| stage is Reading && event matches Event::Entry(None)
}

/// What follows an event at a stage, for every pair that [`is_harvest`]
/// leaves.
///
/// An output file that exists is overwritten only if the user agrees; any
/// failure ends the program with the description it came with. An event that
/// does not answer what was asked for ends it too.
pub open spec fn transition(parameters: Parameters, stage: Stage, event: Event) -> (Stage, Action) {
    match (stage, event) {
        (Stage::Start, Event::Started) => first_action(parameters),
        (Stage::Creating, Event::Created(Ok(_))) => listing_action(parameters),
        (Stage::Creating, Event::Created(Err(error))) => if error.already_exists {
            (Stage::Asking { conflict: error.description }, Action::AskOverwrite)
        } else {
            failing(Failure::Output(error.description))
        },
        (Stage::Asking { conflict }, Event::Answered(Ok(answer))) => if agrees(answer@) {
            (Stage::Truncating, Action::TruncateOutput)
        } else {
            failing(Failure::OutputExists(conflict))
        },
        (Stage::Asking { conflict }, Event::Answered(Err(given))) => failing(
            Failure::Answer(given),
        ),
        (Stage::Truncating, Event::Truncated(Ok(_))) => listing_action(parameters),
        (Stage::Truncating, Event::Truncated(Err(given))) => failing(Failure::Output(given)),
        (Stage::Listing, Event::Listed(Err(given))) => failing(Failure::Directory(given)),
        (Stage::Reading { files }, Event::Entry(Some(found))) => found_action(files, found),
        (Stage::Writing, Event::Written(Ok(_))) => (Stage::Done, Action::Succeed),
        (Stage::Writing, Event::Written(Err(given))) => failing(Failure::Write(given)),
        _ => failing(Failure::OutOfTurn),
    }
}

/// What follows a directory that was opened: its first entry is fetched, with
/// no file read yet.
pub open spec fn follows_listing(next: (Stage, Action)) -> bool {
    &&& next.1 is NextEntry
    &&& next.0 matches Stage::Reading { files }
    &&& files@.len() == 0
}

/// The regular file of this name, length, modification time and capture
/// time, as one entry.
pub open spec fn dated_entry(
    file_name: Vec<u8>,
    len: u64,
    modified: Result<Timestamp, String>,
    capture: Option<CaptureTag>,
) -> DirectoryEntry {
    DirectoryEntry {
        file_name,
        file_type: Ok(FileKind::File),
        metadata: Ok(Metadata { len, modified }),
        capture,
    }
}

/// What follows a look into a regular file.
///
/// Without metadata the program ends. With a capture time the file's record
/// joins the others, whatever its modification time is, and the next entry
/// is fetched. Without one the modification time is asked for.
pub open spec fn follows_opened(
    files: Vec<FileInformation>,
    file_name: Vec<u8>,
    len: Result<u64, String>,
    capture: Option<CaptureTag>,
    next: (Stage, Action),
) -> bool {
    match len {
        Err(given) => next == failing(Failure::Read(ReadError::Metadata(given))),
        Ok(len) => if embedded_moment(capture) is Some {
            forall|modified: Result<Timestamp, String>|
                follows_file(files@, #[trigger] dated_entry(file_name, len, modified, capture), next)
        } else {
            next == (Stage::Dating { files, file_name, len }, Action::ReadModified)
        },
    }
}

/// What follows once everything is known of an entry.
///
/// Where the entry cannot be read, the program ends with that error.
/// Otherwise the next entry is fetched, and the record of the entry, if it is
/// a regular file, has joined the others.
pub open spec fn follows_file(
    files: Seq<FileInformation>,
    entry: DirectoryEntry,
    next: (Stage, Action),
) -> bool {
    match entry_failure(entry) {
        Some(error) => next == failing(Failure::Read(error)),
        None => {
            &&& next.1 is NextEntry
            &&& next.0 matches Stage::Reading { files: grown }
            &&& joined(files, entry, grown@)
        },
    }
}

/// What follows the end of the directory: the manifest of the files in order
/// is to be written.
pub open spec fn follows_end(files: Seq<FileInformation>, next: (Stage, Action)) -> bool {
    &&& next.0 is Writing
    &&& next.1 matches Action::Write(bytes)
    &&& exists|sorted: Seq<Record>|
        #[trigger] is_sorting_of(sorted, records(files)) && bytes@ == manifest_bytes(sorted)
}

/// Run the application
///
/// Takes the stage the program is at and the event that the last piece of
/// work ended in, and gives the stage that follows and the work to do next.
pub fn run(parameters: &Parameters, stage: Stage, event: Event) -> (next: (Stage, Action))
    ensures
        !is_harvest(stage, event) ==> next == transition(*parameters, stage, event),
        stage is Listing ==> (event matches Event::Listed(Ok(_)) ==> follows_listing(next)),
        stage matches Stage::Opening { files, file_name } ==> (event matches Event::Opened {
            len,
            capture,
        } ==> follows_opened(files, file_name, len, capture, next)),
        stage matches Stage::Dating { files, file_name, len } ==> (event matches Event::Modified(
            modified,
        ) ==> follows_file(files@, dated_entry(file_name, len, modified, None), next)),
        stage matches Stage::Reading { files } ==> (event matches Event::Entry(None)
            ==> follows_end(files@, next)),
{
    match (stage, event) {
        (Stage::Start, Event::Started) => begin(parameters),
        (Stage::Creating, Event::Created(Ok(_))) => list(parameters),
        (Stage::Creating, Event::Created(Err(error))) => {
            let CreateError { already_exists, description } = error;
            if already_exists {
                (Stage::Asking { conflict: description }, Action::AskOverwrite)
            } else {
                fail(Failure::Output(description))
            }
        },
        (Stage::Asking { conflict }, Event::Answered(Ok(answer))) => {
            if confirms_overwrite(answer.as_str()) {
                (Stage::Truncating, Action::TruncateOutput)
            } else {
                fail(Failure::OutputExists(conflict))
            }
        },
        (Stage::Asking { conflict }, Event::Answered(Err(given))) => fail(Failure::Answer(given)),
        (Stage::Truncating, Event::Truncated(Ok(_))) => list(parameters),
        (Stage::Truncating, Event::Truncated(Err(given))) => fail(Failure::Output(given)),
        (Stage::Listing, Event::Listed(Ok(_))) => (
            Stage::Reading { files: Vec::new() },
            Action::NextEntry,
        ),
        (Stage::Listing, Event::Listed(Err(given))) => fail(Failure::Directory(given)),
        (Stage::Reading { files }, Event::Entry(Some(found))) => take_entry(files, found),
        (Stage::Reading { files }, Event::Entry(None)) => finish(files),
        (Stage::Opening { files, file_name }, Event::Opened { len, capture }) => take_opened(
            files,
            file_name,
            len,
            capture,
        ),
        (Stage::Dating { files, file_name, len }, Event::Modified(modified)) => take_file(
            files,
            DirectoryEntry {
                file_name,
                file_type: Ok(FileKind::File),
                metadata: Ok(Metadata { len, modified }),
                capture: None,
            },
        ),
        (Stage::Writing, Event::Written(Ok(_))) => (Stage::Done, Action::Succeed),
        (Stage::Writing, Event::Written(Err(given))) => fail(Failure::Write(given)),
        _ => fail(Failure::OutOfTurn),
    }
}

/// The first piece of work.
pub fn begin(parameters: &Parameters) -> (next: (Stage, Action))
    ensures
        next == first_action(*parameters),
{
    if parameters.output.is_some() {
        (Stage::Creating, Action::CreateOutput)
    } else {
        list(parameters)
    }
}

/// The opening of the directory that is to be read.
pub fn list(parameters: &Parameters) -> (next: (Stage, Action))
    ensures
        next == listing_action(*parameters),
{
    if parameters.directory.is_some() {
        (Stage::Listing, Action::ListDirectory)
    } else {
        (Stage::Listing, Action::ListWorkingDirectory)
    }
}

/// The end of the program with a failure.
pub fn fail(failure: Failure) -> (next: (Stage, Action))
    ensures
        next == failing(failure),
{
    (Stage::Done, Action::Fail(failure))
}

/// Decides by its kind what to do with an entry that the directory handed
/// out.
pub fn take_entry(files: Vec<FileInformation>, found: Result<Found, String>) -> (next: (
    Stage,
    Action,
))
    ensures
        next == found_action(files, found),
{
    let Found { file_name, file_type } = match found {
        Ok(found) => found,
        Err(given) => {
            return fail(Failure::Read(ReadError::Entry(given)));
        },
    };
    match file_type {
        Err(given) => fail(Failure::Read(ReadError::FileType(given))),
        Ok(kind) => if classify(kind) {
            (Stage::Opening { files, file_name }, Action::ReadFile)
        } else {
            (Stage::Reading { files }, Action::NextEntry)
        },
    }
}

/// Takes what a look into a regular file came to: ends the program, puts the
/// file's record with the others by its capture time, or asks for the
/// modification time.
pub fn take_opened(
    files: Vec<FileInformation>,
    file_name: Vec<u8>,
    len: Result<u64, String>,
    capture: Option<CaptureTag>,
) -> (next: (Stage, Action))
    ensures
        follows_opened(files, file_name, len, capture, next),
{
    let size = match len {
        Ok(size) => size,
        Err(given) => {
            return fail(Failure::Read(ReadError::Metadata(given)));
        },
    };
    match embedded_timestamp(capture) {
        Some(timestamp) => {
            let mut grown = files;
            grown.push(FileInformation::new(file_name, size, timestamp));
            let next = (Stage::Reading { files: grown }, Action::NextEntry);
            assert forall|modified: Result<Timestamp, String>|
                follows_file(
                    files@,
                    #[trigger] dated_entry(file_name, size, modified, capture),
                    next,
                ) by {
                assert(grown@.drop_last() =~= files@);
            }
            next
        },
        None => (Stage::Dating { files, file_name, len: size }, Action::ReadModified),
    }
}

/// Reads an entry of which everything is known and puts its record, if it
/// gets one, with the others.
pub fn take_file(files: Vec<FileInformation>, entry: DirectoryEntry) -> (next: (Stage, Action))
    ensures
        follows_file(files@, entry, next),
{
    let mut files = files;
    match collect(&mut files, entry) {
        Ok(_) => (Stage::Reading { files }, Action::NextEntry),
        Err(error) => fail(Failure::Read(error)),
    }
}

/// Sorts the files and puts the manifest together.
pub fn finish(files: Vec<FileInformation>) -> (next: (Stage, Action))
    ensures
        follows_end(files@, next),
{
    let sorted = sort(files);
    match write_manifest(&sorted) {
        Ok(bytes) => {
            assert(is_sorting_of(records(sorted@), records(files@)));
            (Stage::Writing, Action::Write(bytes))
        },
        Err(error) => fail(Failure::Encoding(error)),
    }
}

} // verus!
