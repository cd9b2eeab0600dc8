//! The manifest as CSV: a header, then one row for each file.

use vstd::prelude::*;

use crate::file::FileInformation;
use crate::order::Record;
use crate::sort::records;
use crate::timestamp::formatted_time;

verus! {

/// A `csv::Writer` that writes into a vector of bytes and has refused no
/// record.
///
/// Trusted: nothing of it is seen here but through [`written`] and
/// [`field_count`].
#[verifier::external_body]
pub struct MemoryWriter {
    inner: csv::Writer<Vec<u8>>,
}

/// `csv::Error`, carried from the writer to where it is described.
#[verifier::external_type_specification]
#[verifier::external_body]
pub struct ExCsvError(csv::Error);

/// The manifest could not be put into CSV. Holds the description that the
/// CSV writer gave.
#[derive(Clone, Debug, PartialEq, Eq)]
pub struct EncodingError {
    /// What the CSV writer said.
    pub description: String,
}

/// The text that std's lossy decoding of UTF-8 makes of the bytes.
pub uninterp spec fn lossy_text(bytes: Seq<u8>) -> Seq<char>;

/// The bytes that the CSV writer, as it comes, puts out for one record with
/// these fields.
pub uninterp spec fn csv_record(fields: Seq<Seq<char>>) -> Seq<u8>;

/// The bytes that went into a CSV writer since it was made.
pub uninterp spec fn written(writer: MemoryWriter) -> Seq<u8>;

/// The number of fields of the first record that a CSV writer took, if it
/// took one. The writer holds every later record to that number.
pub uninterp spec fn field_count(writer: MemoryWriter) -> Option<nat>;

/// The character of one decimal digit.
pub open spec fn digit(value: nat) -> char {
    if value == 0 {
        '0'
    } else if value == 1 {
        '1'
    } else if value == 2 {
        '2'
    } else if value == 3 {
        '3'
    } else if value == 4 {
        '4'
    } else if value == 5 {
        '5'
    } else if value == 6 {
        '6'
    } else if value == 7 {
        '7'
    } else if value == 8 {
        '8'
    } else {
        '9'
    }
}

/// The decimal numeral of a number, without sign and without leading zeros.
pub open spec fn decimal_text(value: nat) -> Seq<char>
    decreases value,
{
    if value < 10 {
        seq![digit(value)]
    } else {
        decimal_text(value / 10).push(digit(value % 10))
    }
}

/// The three fields of the header row.
pub open spec fn header_text() -> Seq<Seq<char>> {
    seq!["File name"@, "File size"@, "Timestamp"@]
}

/// The three fields of the row of one record: the name as text, the size as
/// a decimal numeral, and the local date and time.
pub open spec fn row_text(record: Record) -> Seq<Seq<char>> {
    seq![
        lossy_text(record.name),
        decimal_text(record.size as nat),
        formatted_time(record.moment.seconds, record.moment.nanos, record.moment.offset),
    ]
}

/// The rows of the manifest as text: the header row, then one row for each
/// record, in the order of the records.
pub open spec fn manifest_text(rows: Seq<Record>) -> Seq<Seq<Seq<char>>> {
    seq![header_text()] + rows.map_values(|record: Record| row_text(record))
}

/// The bytes of these rows, one after the other.
pub open spec fn table_bytes(table: Seq<Seq<Seq<char>>>) -> Seq<u8>
    decreases table.len(),
{
    if table.len() == 0 {
        Seq::empty()
    } else {
        table_bytes(table.drop_last()) + csv_record(table.last())
    }
}

/// The bytes of the whole manifest: the header row, then the rows.
pub open spec fn manifest_bytes(rows: Seq<Record>) -> Seq<u8> {
    table_bytes(manifest_text(rows))
}

/// The one-letter text of a decimal digit.
fn digit_text(value: u64) -> (text: &'static str)
    requires
        value < 10,
    ensures
        text@ == seq![digit(value as nat)],
{
    proof {
        reveal_strlit("0");
        reveal_strlit("1");
        reveal_strlit("2");
        reveal_strlit("3");
        reveal_strlit("4");
        reveal_strlit("5");
        reveal_strlit("6");
        reveal_strlit("7");
        reveal_strlit("8");
        reveal_strlit("9");
    }
    let text = if value == 0 {
        "0"
    } else if value == 1 {
        "1"
    } else if value == 2 {
        "2"
    } else if value == 3 {
        "3"
    } else if value == 4 {
        "4"
    } else if value == 5 {
        "5"
    } else if value == 6 {
        "6"
    } else if value == 7 {
        "7"
    } else if value == 8 {
        "8"
    } else {
        "9"
    };
    assert(text@ =~= seq![digit(value as nat)]);
    text
}

/// The decimal numeral of a number.
pub fn decimal(value: u64) -> (text: String)
    ensures
        text@ == decimal_text(value as nat),
    decreases value,
{
    if value < 10 {
        digit_text(value).to_owned()
    } else {
        let mut text = decimal(value / 10);
        text.append(digit_text(value % 10));
        assert(text@ =~= decimal_text((value / 10) as nat).push(digit((value % 10) as nat)));
        text
    }
}

/// The name of a file as text, with a replacement character wherever the
/// bytes are no UTF-8.
pub fn display_name(file_name: &Vec<u8>) -> (text: String)
    ensures
        text@ == lossy_text(file_name@),
{
    decode_lossy(file_name)
}

/// The fields of the header row.
pub fn header() -> (fields: Vec<String>)
    ensures
        fields@.len() == 3,
        fields.deep_view() == header_text(),
{
    let mut fields: Vec<String> = Vec::new();
    fields.push("File name".to_owned());
    fields.push("File size".to_owned());
    fields.push("Timestamp".to_owned());
    assert(fields.deep_view() =~= header_text());
    fields
}

/// The fields of a row, given the name as text, the size, and the time as
/// text: the name, the size as a decimal numeral, the time.
pub fn fields(name: String, size: u64, time: String) -> (fields: Vec<String>)
    ensures
        fields@.len() == 3,
        fields.deep_view() == seq![name@, decimal_text(size as nat), time@],
{
    let mut fields: Vec<String> = Vec::new();
    fields.push(name);
    fields.push(decimal(size));
    fields.push(time);
    assert(fields.deep_view() =~= seq![name@, decimal_text(size as nat), time@]);
    fields
}

/// The fields of the row of one file.
pub fn row(file: &FileInformation) -> (fields: Vec<String>)
    ensures
        fields@.len() == 3,
        fields.deep_view() == row_text(file@),
{
    fields(display_name(&file.file_name), file.size, file.timestamp.format())
}

/// Turns what the CSV writer gave back into the result of this library.
pub fn checked<T>(outcome: Result<T, csv::Error>) -> (result: Result<T, EncodingError>)
    ensures
        result is Ok <==> outcome is Ok,
        result matches Ok(value) ==> outcome == Ok::<T, csv::Error>(value),
{
    match outcome {
        Ok(value) => Ok(value),
        Err(error) => Err(EncodingError { description: describe(&error) }),
    }
}

/// Write the manifest of the files, in the order given, as CSV into memory:
/// one header row, then one row per file.
///
/// Every row has three fields, as the header has, so the CSV writer takes
/// them all, and the bytes are exactly those of the header and the rows.
pub fn write_manifest(files: &Vec<FileInformation>) -> (result: Result<Vec<u8>, EncodingError>)
    ensures
        result is Ok,
        result matches Ok(bytes) ==> bytes@ == manifest_bytes(records(files@)),
{
    let fields = header();
    let mut writer = match checked(write_record(start_writer(), &fields)) {
        Ok(writer) => writer,
        Err(error) => {
            return Err(error);
        },
    };
    proof {
        let start = manifest_text(records(files@).take(0));
        assert(start =~= seq![header_text()]);
        assert(start.drop_last() =~= Seq::empty());
        assert(table_bytes(start) =~= csv_record(header_text())) by {
            reveal_with_fuel(table_bytes, 2);
        }
    }
    let mut at: usize = 0;
    while at < files.len()
        invariant
            at <= files.len(),
            field_count(writer) == Some(3nat),
            written(writer) == manifest_bytes(records(files@).take(at as int)),
        decreases files.len() - at,
    {
        let fields = row(&files[at]);
        proof {
            let rows = records(files@);
            let longer = manifest_text(rows.take(at + 1));
            assert(longer.drop_last() =~= manifest_text(rows.take(at as int)));
            assert(longer.last() == row_text(files@[at as int]@));
        }
        writer = match checked(write_record(writer, &fields)) {
            Ok(writer) => writer,
            Err(error) => {
                return Err(error);
            },
        };
        at += 1;
    }
    assert(records(files@).take(at as int) =~= records(files@));
    checked(finish_writer(writer))
}

/// Calls std's `String::from_utf8_lossy` and takes the text as its own.
///
/// Trusted: the text is a function of the bytes alone.
#[verifier::external_body]
fn decode_lossy(bytes: &Vec<u8>) -> (text: String)
    ensures
        text@ == lossy_text(bytes@),
{
    String::from_utf8_lossy(bytes).into_owned()
}

/// Calls csv's `Writer::from_writer` on an empty vector.
///
/// Trusted: a writer starts with nothing written and no record taken.
#[verifier::external_body]
fn start_writer() -> (writer: MemoryWriter)
    ensures
        written(writer) == Seq::<u8>::empty(),
        field_count(writer) is None,
{
    MemoryWriter { inner: csv::Writer::from_writer(Vec::new()) }
}

/// Calls csv's `Writer::write_record`, and hands the writer back where it
/// took the record.
///
/// Trusted: the writer takes the record exactly if it is the first or has as
/// many fields as the first; writing into a vector, it has no other reason
/// to refuse. Where it takes the record, it adds the bytes of that one
/// record to what was written, and those depend on the fields alone.
#[verifier::external_body]
fn write_record(writer: MemoryWriter, fields: &Vec<String>) -> (done: Result<
    MemoryWriter,
    csv::Error,
>)
    ensures
        done is Ok <==> (field_count(writer) is None || field_count(writer) == Some(
            fields@.len(),
        )),
        done matches Ok(after) ==> written(after) == written(writer) + csv_record(
            fields.deep_view(),
        ),
        done matches Ok(after) ==> field_count(after) == Some(fields@.len()),
{
    let mut writer = writer;
    match writer.inner.write_record(fields) {
        Ok(()) => Ok(writer),
        Err(error) => Err(error),
    }
}

/// Calls csv's `Writer::into_inner`, and `IntoInnerError::into_error` and
/// `csv::Error::from` on its error.
///
/// Trusted: the writer can be emptied into its vector, and the vector then
/// holds what was written.
#[verifier::external_body]
fn finish_writer(writer: MemoryWriter) -> (bytes: Result<Vec<u8>, csv::Error>)
    ensures
        bytes is Ok,
        bytes matches Ok(held) ==> held@ == written(writer),
{
    match writer.inner.into_inner() {
        Ok(held) => Ok(held),
        Err(error) => Err(csv::Error::from(error.into_error())),
    }
}

/// Calls the `to_string` that csv's `Error` has from its `Display`.
#[verifier::external_body]
fn describe(error: &csv::Error) -> (text: String) {
    error.to_string()
}

} // verus!
