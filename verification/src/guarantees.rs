//! What holds of every manifest, whatever the directory.

use vstd::prelude::*;

use crate::application::{
    dated_entry, failing, follows_file, follows_opened, is_harvest, transition, Action, Event,
    Failure, Stage,
};
use crate::capture::{embedded_moment, CaptureTag};
use crate::directory::{
    describes, entry_failure, harvested, is_regular, listing_failure, DirectoryEntry, FileKind,
};
use crate::file::FileInformation;
use crate::manifest::{manifest_bytes, manifest_text};
use crate::order::{in_order, name_before, ordered, same_place, Record};
use crate::overwrite::agrees;
use crate::program_options::Parameters;
use crate::sort::{is_sorting_of, lemma_sorting_keeps_records, lemma_sorting_unique, records};
use crate::timestamp::{earlier, simultaneous, Moment, Timestamp};

verus! {

/// How many items of the listing are regular files.
pub open spec fn regular_count(listing: Seq<Result<DirectoryEntry, String>>) -> nat
    decreases listing.len(),
{
    if listing.len() == 0 {
        0
    } else {
        let before = regular_count(listing.drop_last());
        match listing.last() {
            Ok(entry) => if is_regular(entry) {
                before + 1
            } else {
                before
            },
            Err(_) => before,
        }
    }
}

/// Whether `row` is the row of the regular file at place `at` of the listing.
pub open spec fn is_row_of(
    listing: Seq<Result<DirectoryEntry, String>>,
    at: int,
    row: Record,
) -> bool {
    &&& 0 <= at < listing.len()
    &&& listing[at] matches Ok(entry)
    &&& describes(entry, row)
}

/// Whether no two entries of the listing have the same name, as in a
/// directory.
pub open spec fn distinct_names(listing: Seq<Result<DirectoryEntry, String>>) -> bool {
    forall|i: int, j: int|
        0 <= i < j < listing.len() ==> name_of(#[trigger] listing[i]) != name_of(
            #[trigger] listing[j],
        )
}

/// The name of an entry that the directory handed out.
pub open spec fn name_of(item: Result<DirectoryEntry, String>) -> Seq<u8> {
    item->Ok_0.file_name@
}

/// The modification time of an entry whose metadata holds one.
pub open spec fn modified_moment(item: Result<DirectoryEntry, String>) -> Moment {
    item->Ok_0.metadata->Ok_0.modified->Ok_0@
}

/// The capture time embedded in the file of an entry, if there is one.
pub open spec fn capture_moment(item: Result<DirectoryEntry, String>) -> Option<Moment> {
    embedded_moment(item->Ok_0.capture)
}

/// Reading one more entry keeps the rows those of the listing: the row of a
/// regular file joins them at the end, and any other entry leaves them as
/// they are.
pub proof fn lemma_harvest_grows(
    seen: Seq<Result<DirectoryEntry, String>>,
    rows: Seq<Record>,
    entry: DirectoryEntry,
    row: Record,
)
    requires
        harvested(seen, rows),
        entry_failure(entry) is None,
        is_regular(entry) ==> describes(entry, row),
    ensures
        harvested(
            seen.push(Ok(entry)),
            if is_regular(entry) {
                rows.push(row)
            } else {
                rows
            },
        ),
{
    let longer = seen.push(Ok(entry));
    assert(longer.drop_last() =~= seen);
    assert(longer.last() == Ok::<DirectoryEntry, String>(entry));
    if is_regular(entry) {
        assert(rows.push(row).drop_last() =~= rows);
    }
}

/// Reading a directory entry by entry comes to the same as reading its
/// listing: after a look into one more entry that did not fail, the files
/// held are those of the listing that is longer by that entry.
pub proof fn lemma_run_keeps_harvest(
    seen: Seq<Result<DirectoryEntry, String>>,
    files: Seq<FileInformation>,
    entry: DirectoryEntry,
    next: (Stage, Action),
)
    requires
        harvested(seen, records(files)),
        follows_file(files, entry, next),
        entry_failure(entry) is None,
    ensures
        next.0 matches Stage::Reading { files: grown } && harvested(
            seen.push(Ok(entry)),
            records(grown@),
        ),
{
    let grown = next.0->Reading_files@;
    if is_regular(entry) {
        let row = grown.last()@;
        lemma_harvest_grows(seen, records(files), entry, row);
        assert(records(grown) =~= records(files).push(row)) by {
            assert(grown =~= files.push(grown.last()));
        }
    } else {
        lemma_harvest_grows(seen, records(files), entry, arbitrary());
    }
}

/// A file with a capture time joins the files as soon as it was looked
/// into: the files held are then those of the listing that is longer by the
/// file, whatever its modification time is.
pub proof fn lemma_run_keeps_harvest_by_capture(
    seen: Seq<Result<DirectoryEntry, String>>,
    files: Vec<FileInformation>,
    file_name: Vec<u8>,
    len: u64,
    modified: Result<Timestamp, String>,
    capture: Option<CaptureTag>,
    next: (Stage, Action),
)
    requires
        harvested(seen, records(files@)),
        embedded_moment(capture) is Some,
        follows_opened(files, file_name, Ok(len), capture, next),
    ensures
        next.0 matches Stage::Reading { files: grown } && harvested(
            seen.push(Ok(dated_entry(file_name, len, modified, capture))),
            records(grown@),
        ),
{
    let entry = dated_entry(file_name, len, modified, capture);
    assert(follows_file(files@, entry, next));
    lemma_run_keeps_harvest(seen, files@, entry, next);
}

/// A file that was dated for want of a capture time is read as the file it
/// is: what follows the entry without any search in it follows the entry
/// with a search that found no capture time.
pub proof fn lemma_dated_for_want_of_capture(
    files: Seq<FileInformation>,
    file_name: Vec<u8>,
    len: u64,
    modified: Result<Timestamp, String>,
    capture: Option<CaptureTag>,
    next: (Stage, Action),
)
    requires
        embedded_moment(capture) is None,
        follows_file(files, dated_entry(file_name, len, modified, None), next),
    ensures
        follows_file(files, dated_entry(file_name, len, modified, capture), next),
{
}

/// An output file that exists is left as it is unless the user agrees:
/// after any other answer the program ends with the failure that the file
/// exists, and nothing is asked to be written or emptied.
pub proof fn lemma_declined_overwrite_fails(
    parameters: Parameters,
    conflict: String,
    answer: String,
)
    requires
        !agrees(answer@),
    ensures
        transition(parameters, Stage::Asking { conflict }, Event::Answered(Ok(answer)))
            == failing(Failure::OutputExists(conflict)),
{
}

/// Bytes are asked to be written only at the end of a directory that was
/// read: no other event at no other stage is followed by a write, and the
/// output file is emptied only after the user was asked.
pub proof fn lemma_write_follows_reading(parameters: Parameters, stage: Stage, event: Event)
    requires
        !is_harvest(stage, event),
    ensures
        !(transition(parameters, stage, event).1 is Write),
        transition(parameters, stage, event).1 is TruncateOutput ==> stage is Asking,
{
}

/// There are as many rows as the listing has regular files.
pub proof fn lemma_row_count(listing: Seq<Result<DirectoryEntry, String>>, rows: Seq<Record>)
    requires
        harvested(listing, rows),
    ensures
        rows.len() == regular_count(listing),
    decreases listing.len(),
{
    if listing.len() > 0 {
        if is_regular(listing.last()->Ok_0) {
            lemma_row_count(listing.drop_last(), rows.drop_last());
        } else {
            lemma_row_count(listing.drop_last(), rows);
        }
    }
}

/// Rows are had only where nothing in the listing failed.
pub proof fn lemma_nothing_failed(
    listing: Seq<Result<DirectoryEntry, String>>,
    rows: Seq<Record>,
    at: int,
)
    requires
        harvested(listing, rows),
        0 <= at < listing.len(),
    ensures
        listing_failure(listing[at]) is None,
    decreases listing.len(),
{
    if at < listing.len() - 1 {
        assert(listing.drop_last()[at] == listing[at]);
        if is_regular(listing.last()->Ok_0) {
            lemma_nothing_failed(listing.drop_last(), rows.drop_last(), at);
        } else {
            lemma_nothing_failed(listing.drop_last(), rows, at);
        }
    }
}

/// Every row is the row of a regular file at some place of the listing. The
/// place is given back.
pub proof fn lemma_row_has_file(
    listing: Seq<Result<DirectoryEntry, String>>,
    rows: Seq<Record>,
    k: int,
) -> (at: int)
    requires
        harvested(listing, rows),
        0 <= k < rows.len(),
    ensures
        is_row_of(listing, at, rows[k]),
        is_regular(listing[at]->Ok_0),
    decreases listing.len(),
{
    let rest = listing.drop_last();
    if is_regular(listing.last()->Ok_0) {
        if k == rows.len() - 1 {
            listing.len() - 1
        } else {
            let at = lemma_row_has_file(rest, rows.drop_last(), k);
            assert(rest[at] == listing[at]);
            assert(rows.drop_last()[k] == rows[k]);
            at
        }
    } else {
        let at = lemma_row_has_file(rest, rows, k);
        assert(rest[at] == listing[at]);
        at
    }
}

/// The rows keep the order of the listing: of two rows the earlier one is
/// the row of a file at an earlier place. Both places are given back.
pub proof fn lemma_rows_keep_order(
    listing: Seq<Result<DirectoryEntry, String>>,
    rows: Seq<Record>,
    k: int,
    l: int,
) -> (places: (int, int))
    requires
        harvested(listing, rows),
        0 <= k < l < rows.len(),
    ensures
        places.0 < places.1,
        is_row_of(listing, places.0, rows[k]),
        is_row_of(listing, places.1, rows[l]),
    decreases listing.len(),
{
    let rest = listing.drop_last();
    if is_regular(listing.last()->Ok_0) {
        if l == rows.len() - 1 {
            let at = lemma_row_has_file(rest, rows.drop_last(), k);
            assert(rest[at] == listing[at]);
            assert(rows.drop_last()[k] == rows[k]);
            (at, listing.len() - 1)
        } else {
            let places = lemma_rows_keep_order(rest, rows.drop_last(), k, l);
            assert(rest[places.0] == listing[places.0]);
            assert(rest[places.1] == listing[places.1]);
            assert(rows.drop_last()[k] == rows[k]);
            assert(rows.drop_last()[l] == rows[l]);
            places
        }
    } else {
        let places = lemma_rows_keep_order(rest, rows, k, l);
        assert(rest[places.0] == listing[places.0]);
        assert(rest[places.1] == listing[places.1]);
        places
    }
}

/// Every regular file of the listing has its row. The row's place is given
/// back.
pub proof fn lemma_file_has_row(
    listing: Seq<Result<DirectoryEntry, String>>,
    rows: Seq<Record>,
    at: int,
) -> (k: int)
    requires
        harvested(listing, rows),
        0 <= at < listing.len(),
        listing[at] is Ok,
        is_regular(listing[at]->Ok_0),
    ensures
        0 <= k < rows.len(),
        is_row_of(listing, at, rows[k]),
    decreases listing.len(),
{
    let rest = listing.drop_last();
    if at == listing.len() - 1 {
        rows.len() - 1
    } else {
        assert(rest[at] == listing[at]);
        if is_regular(listing.last()->Ok_0) {
            let k = lemma_file_has_row(rest, rows.drop_last(), at);
            assert(rows.drop_last()[k] == rows[k]);
            k
        } else {
            lemma_file_has_row(rest, rows, at)
        }
    }
}

/// Only regular files get a row: every row of the manifest is the row of a
/// regular file at some place of the listing, which is given back. A
/// directory never appears.
pub proof fn lemma_only_regular_files(
    listing: Seq<Result<DirectoryEntry, String>>,
    rows: Seq<Record>,
    sorted: Seq<Record>,
    i: int,
) -> (at: int)
    requires
        harvested(listing, rows),
        is_sorting_of(sorted, rows),
        0 <= i < sorted.len(),
    ensures
        is_row_of(listing, at, sorted[i]),
        is_regular(listing[at]->Ok_0),
{
    lemma_sorting_keeps_records(sorted, rows);
    assert(sorted.contains(sorted[i]));
    assert(rows.contains(sorted[i]));
    let k = choose|k: int| 0 <= k < rows.len() && rows[k] == sorted[i];
    lemma_row_has_file(listing, rows, k)
}

/// The manifest has one row for each regular file of the listing, and the
/// header row before them.
pub proof fn lemma_one_row_per_file(
    listing: Seq<Result<DirectoryEntry, String>>,
    rows: Seq<Record>,
    sorted: Seq<Record>,
)
    requires
        harvested(listing, rows),
        is_sorting_of(sorted, rows),
    ensures
        sorted.len() == regular_count(listing),
        manifest_text(sorted).len() == regular_count(listing) + 1,
{
    lemma_row_count(listing, rows);
    lemma_sorting_keeps_records(sorted, rows);
}

/// The rows stand in the order of their moments: no row is earlier than one
/// before it.
pub proof fn lemma_moments_never_decrease(sorted: Seq<Record>, i: int, j: int)
    requires
        ordered(sorted),
        0 <= i < j < sorted.len(),
    ensures
        !earlier(sorted[j].moment, sorted[i].moment),
{
    assert(in_order(sorted[i], sorted[j]));
}

/// Of two rows with the same moment the one whose name comes first byte by
/// byte stands first.
pub proof fn lemma_ties_broken_by_name(sorted: Seq<Record>, i: int, j: int)
    requires
        ordered(sorted),
        0 <= i < j < sorted.len(),
        simultaneous(sorted[i].moment, sorted[j].moment),
    ensures
        !name_before(sorted[j].name, sorted[i].name),
        sorted[i].name != sorted[j].name ==> name_before(sorted[i].name, sorted[j].name),
{
    assert(in_order(sorted[i], sorted[j]));
    crate::order::lemma_name_connected(sorted[i].name, sorted[j].name);
}

/// Where the files carry no capture time, the manifest follows the
/// modification times: a row has the modification time of its file, and of
/// two rows the later one is of a file that was not modified earlier.
pub proof fn lemma_ordered_by_modification_time(
    listing: Seq<Result<DirectoryEntry, String>>,
    rows: Seq<Record>,
    sorted: Seq<Record>,
    i: int,
    j: int,
) -> (places: (int, int))
    requires
        harvested(listing, rows),
        is_sorting_of(sorted, rows),
        forall|at: int|
            0 <= at < listing.len() ==> capture_moment(#[trigger] listing[at]) is None,
        0 <= i < j < sorted.len(),
    ensures
        is_row_of(listing, places.0, sorted[i]),
        is_row_of(listing, places.1, sorted[j]),
        simultaneous(sorted[i].moment, modified_moment(listing[places.0])),
        simultaneous(sorted[j].moment, modified_moment(listing[places.1])),
        !earlier(modified_moment(listing[places.1]), modified_moment(listing[places.0])),
{
    let first = lemma_only_regular_files(listing, rows, sorted, i);
    let second = lemma_only_regular_files(listing, rows, sorted, j);
    assert(capture_moment(listing[first]) is None);
    assert(capture_moment(listing[second]) is None);
    assert(in_order(sorted[i], sorted[j]));
    (first, second)
}

/// A capture time embedded in a file places it: the file's row has exactly
/// that moment, whatever the modification time is and whether there is one.
/// The row's place in the manifest is given back.
pub proof fn lemma_capture_time_places(
    listing: Seq<Result<DirectoryEntry, String>>,
    rows: Seq<Record>,
    sorted: Seq<Record>,
    at: int,
) -> (i: int)
    requires
        harvested(listing, rows),
        is_sorting_of(sorted, rows),
        0 <= at < listing.len(),
        listing[at] is Ok,
        is_regular(listing[at]->Ok_0),
        capture_moment(listing[at]) is Some,
    ensures
        0 <= i < sorted.len(),
        is_row_of(listing, at, sorted[i]),
        Some(sorted[i].moment) == capture_moment(listing[at]),
{
    let k = lemma_file_has_row(listing, rows, at);
    lemma_sorting_keeps_records(sorted, rows);
    assert(rows.contains(rows[k]));
    assert(sorted.contains(rows[k]));
    choose|i: int| 0 <= i < sorted.len() && sorted[i] == rows[k]
}

/// The rows of a listing are settled by the listing but for the offsets at
/// which the local zone shows the modification times.
pub proof fn lemma_same_rows(
    listing: Seq<Result<DirectoryEntry, String>>,
    first: Seq<Record>,
    second: Seq<Record>,
)
    requires
        harvested(listing, first),
        harvested(listing, second),
        forall|k: int|
            0 <= k < first.len() && k < second.len() ==> (#[trigger] first[k]).moment.offset == (
            #[trigger] second[k]).moment.offset,
    ensures
        first == second,
    decreases listing.len(),
{
    if listing.len() == 0 {
        assert(first =~= second);
    } else if is_regular(listing.last()->Ok_0) {
        let fewer = first.drop_last();
        let other = second.drop_last();
        assert forall|k: int| 0 <= k < fewer.len() && k < other.len() implies (
        #[trigger] fewer[k]).moment.offset == (#[trigger] other[k]).moment.offset by {
            assert(fewer[k] == first[k]);
            assert(other[k] == second[k]);
        }
        lemma_same_rows(listing.drop_last(), fewer, other);
        let a = first[first.len() - 1];
        let b = second[second.len() - 1];
        assert(a.moment.offset == b.moment.offset);
        assert(a.moment =~= b.moment);
        assert(a =~= b);
        assert(first =~= fewer.push(a));
        assert(second =~= other.push(b));
    } else {
        lemma_same_rows(listing.drop_last(), first, second);
    }
}

/// Where no two entries have the same name, no two rows have the same
/// moment and name.
pub proof fn lemma_rows_differ(
    listing: Seq<Result<DirectoryEntry, String>>,
    rows: Seq<Record>,
    k: int,
    l: int,
)
    requires
        distinct_names(listing),
        harvested(listing, rows),
        0 <= k < rows.len(),
        0 <= l < rows.len(),
        k != l,
    ensures
        !same_place(rows[k], rows[l]),
{
    let places = if k < l {
        lemma_rows_keep_order(listing, rows, k, l)
    } else {
        lemma_rows_keep_order(listing, rows, l, k)
    };
    assert(name_of(listing[places.0]) != name_of(listing[places.1]));
}

/// Reading the same listing twice gives the same manifest, byte for byte,
/// where no two entries have the same name and the local zone showed the
/// modification times at the same offsets both times.
pub proof fn lemma_same_listing_same_manifest(
    listing: Seq<Result<DirectoryEntry, String>>,
    first_rows: Seq<Record>,
    first: Seq<Record>,
    second_rows: Seq<Record>,
    second: Seq<Record>,
)
    requires
        distinct_names(listing),
        harvested(listing, first_rows),
        is_sorting_of(first, first_rows),
        harvested(listing, second_rows),
        is_sorting_of(second, second_rows),
        forall|k: int|
            0 <= k < first_rows.len() && k < second_rows.len() ==> (
            #[trigger] first_rows[k]).moment.offset == (#[trigger] second_rows[k]).moment.offset,
    ensures
        first == second,
        manifest_bytes(first) == manifest_bytes(second),
{
    lemma_same_rows(listing, first_rows, second_rows);
    assert forall|k: int, l: int|
        0 <= k < first_rows.len() && 0 <= l < first_rows.len() && same_place(
            first_rows[k],
            first_rows[l],
        ) implies first_rows[k] == first_rows[l] by {
        if k != l {
            lemma_rows_differ(listing, first_rows, k, l);
        }
    }
    lemma_sorting_unique(first, second, first_rows);
}

/// What a directory said of one entry, as plain values: the name, the kind,
/// the length, the modification time and what the search for a capture time
/// came to, with the description in place of whatever could not be had.
pub struct Sighting {
    /// The base name.
    pub name: Seq<u8>,
    /// The kind of the entry.
    pub file_type: Result<FileKind, Seq<char>>,
    /// The length of the content.
    pub len: Result<int, Seq<char>>,
    /// The modification time, where there is metadata.
    pub modified: Option<Result<Moment, Seq<char>>>,
    /// What the search for a capture time came to.
    pub capture: Option<CaptureTag>,
}

/// What the directory said of this entry.
pub open spec fn sighting(item: Result<DirectoryEntry, String>) -> Result<Sighting, Seq<char>> {
    match item {
        Err(given) => Err(given@),
        Ok(entry) => Ok(
            Sighting {
                name: entry.file_name@,
                file_type: match entry.file_type {
                    Ok(kind) => Ok(kind),
                    Err(given) => Err(given@),
                },
                len: match entry.metadata {
                    Ok(metadata) => Ok(metadata.len as int),
                    Err(given) => Err(given@),
                },
                modified: match entry.metadata {
                    Ok(metadata) => Some(
                        match metadata.modified {
                            Ok(time) => Ok(time@),
                            Err(given) => Err(given@),
                        },
                    ),
                    Err(_) => None,
                },
                capture: entry.capture,
            },
        ),
    }
}

/// What the directory said of its entries, in the order it handed them out.
pub open spec fn sightings(listing: Seq<Result<DirectoryEntry, String>>) -> Seq<
    Result<Sighting, Seq<char>>,
> {
    listing.map_values(|item: Result<DirectoryEntry, String>| sighting(item))
}

/// Every row of one reading of a directory is a row of another reading of
/// the same entries, in whatever order they came, where the local zone
/// showed each file at the same offset both times.
proof fn lemma_row_in_other_reading(
    first_listing: Seq<Result<DirectoryEntry, String>>,
    first_rows: Seq<Record>,
    second_listing: Seq<Result<DirectoryEntry, String>>,
    second_rows: Seq<Record>,
    k: int,
)
    requires
        sightings(first_listing).to_multiset() == sightings(second_listing).to_multiset(),
        harvested(first_listing, first_rows),
        harvested(second_listing, second_rows),
        forall|i: int, j: int|
            0 <= i < first_rows.len() && 0 <= j < second_rows.len() && (
            #[trigger] first_rows[i]).name == (#[trigger] second_rows[j]).name ==> first_rows[i].moment.offset
                == second_rows[j].moment.offset,
        0 <= k < first_rows.len(),
    ensures
        second_rows.contains(first_rows[k]),
{
    let at = lemma_row_has_file(first_listing, first_rows, k);
    let seen = sighting(first_listing[at]);
    assert(sightings(second_listing).contains(seen)) by {
        sightings(first_listing).to_multiset_ensures();
        sightings(second_listing).to_multiset_ensures();
        assert(sightings(first_listing)[at] == seen);
        assert(sightings(first_listing).contains(seen));
        assert(sightings(first_listing).to_multiset().count(seen) > 0);
    }
    let place = choose|place: int|
        0 <= place < sightings(second_listing).len() && sightings(second_listing)[place] == seen;
    assert(sighting(second_listing[place]) == seen);
    lemma_nothing_failed(second_listing, second_rows, place);
    let j = lemma_file_has_row(second_listing, second_rows, place);
    let a = first_rows[k];
    let b = second_rows[j];
    assert(a.name == b.name);
    assert(a.moment.offset == b.moment.offset);
    assert(a.moment =~= b.moment);
    assert(a =~= b);
}

/// The rows of a directory whose entries have different names are all
/// different.
proof fn lemma_rows_unlike(listing: Seq<Result<DirectoryEntry, String>>, rows: Seq<Record>)
    requires
        distinct_names(listing),
        harvested(listing, rows),
    ensures
        rows.no_duplicates(),
        forall|k: int, l: int|
            0 <= k < rows.len() && 0 <= l < rows.len() && same_place(rows[k], rows[l]) ==> rows[k]
                == rows[l],
{
    assert forall|k: int, l: int|
        0 <= k < rows.len() && 0 <= l < rows.len() && k != l implies rows[k] != rows[l] by {
        lemma_rows_differ(listing, rows, k, l);
    }
    assert forall|k: int, l: int|
        0 <= k < rows.len() && 0 <= l < rows.len() && same_place(
            rows[k],
            rows[l],
        ) implies rows[k] == rows[l] by {
        if k != l {
            lemma_rows_differ(listing, rows, k, l);
        }
    }
}

/// The manifest does not depend on the order in which a directory hands out
/// its entries: two readings of the same entries give the same manifest,
/// byte for byte, where no two entries have the same name and the local zone
/// showed each file at the same offset both times.
pub proof fn lemma_same_entries_same_manifest(
    first_listing: Seq<Result<DirectoryEntry, String>>,
    first_rows: Seq<Record>,
    first: Seq<Record>,
    second_listing: Seq<Result<DirectoryEntry, String>>,
    second_rows: Seq<Record>,
    second: Seq<Record>,
)
    requires
        distinct_names(first_listing),
        distinct_names(second_listing),
        sightings(first_listing).to_multiset() == sightings(second_listing).to_multiset(),
        harvested(first_listing, first_rows),
        is_sorting_of(first, first_rows),
        harvested(second_listing, second_rows),
        is_sorting_of(second, second_rows),
        forall|i: int, j: int|
            0 <= i < first_rows.len() && 0 <= j < second_rows.len() && (
            #[trigger] first_rows[i]).name == (#[trigger] second_rows[j]).name ==> first_rows[i].moment.offset
                == second_rows[j].moment.offset,
    ensures
        first == second,
        manifest_bytes(first) == manifest_bytes(second),
{
    lemma_rows_unlike(first_listing, first_rows);
    lemma_rows_unlike(second_listing, second_rows);
    first_rows.lemma_multiset_has_no_duplicates();
    second_rows.lemma_multiset_has_no_duplicates();
    first_rows.to_multiset_ensures();
    second_rows.to_multiset_ensures();
    assert forall|row: Record|
        first_rows.to_multiset().count(row) == second_rows.to_multiset().count(row) by {
        if first_rows.contains(row) {
            let k = choose|k: int| 0 <= k < first_rows.len() && first_rows[k] == row;
            lemma_row_in_other_reading(first_listing, first_rows, second_listing, second_rows, k);
        }
        if second_rows.contains(row) {
            let k = choose|k: int| 0 <= k < second_rows.len() && second_rows[k] == row;
            lemma_row_in_other_reading(second_listing, second_rows, first_listing, first_rows, k);
        }
    }
    assert(first_rows.to_multiset() =~= second_rows.to_multiset());
    lemma_sorting_unique(first, second, first_rows);
}

} // verus!
