//! Tabular input, read by the `csv` crate. The crate's types are opaque to
//! Verus: what a record or a reader holds is named here, and each call into
//! the crate states over those names what the crate does.

use vstd::prelude::*;

verus! {

/// `csv::StringRecord`: one row of text fields.
#[verifier::external_type_specification]
#[verifier::external_body]
pub struct ExStringRecord(csv::StringRecord);

/// `csv::Reader`: a parser that goes through a table row by row.
#[verifier::external_type_specification]
#[verifier::external_body]
#[verifier::reject_recursive_types(R)]
pub struct ExReader<R>(csv::Reader<R>);

/// `csv::Error`: why the crate rejects a row.
#[verifier::external_type_specification]
#[verifier::external_body]
pub struct ExCsvError(csv::Error);

/// The fields that a record holds, in order.
pub uninterp spec fn record_fields(record: csv::StringRecord) -> Seq<Seq<char>>;

/// The header row of the table that a reader reads, or `None` where that row
/// is not valid text.
pub uninterp spec fn reader_header(reader: csv::Reader<&[u8]>) -> Option<Seq<Seq<char>>>;

/// The data rows that a reader has yet to hand out, in order; `None` stands
/// for a row that the reader rejects.
pub uninterp spec fn reader_rows(reader: csv::Reader<&[u8]>) -> Seq<Option<Seq<Seq<char>>>>;

/// The reader has the `csv` crate's default settings, as
/// `csv::Reader::from_reader` gives them: the first row is the header, no
/// field is trimmed, and all rows must have one length.
pub uninterp spec fn reader_is_default(reader: csv::Reader<&[u8]>) -> bool;

/// The table that the `csv` crate finds in `data`: its header row and its
/// data rows, as a reader with the default settings goes through them.
pub uninterp spec fn csv_table(data: Seq<u8>) -> (Option<Seq<Seq<char>>>, Seq<Option<Seq<Seq<char>>>>);

/// The header row that the `csv` crate finds in `data`, or `None` where that
/// row is not valid text.
pub open spec fn csv_header(data: Seq<u8>) -> Option<Seq<Seq<char>>> {
    csv_table(data).0
}

/// The data rows that the `csv` crate finds in `data`, in order; `None`
/// stands for a row that the crate rejects.
pub open spec fn csv_rows(data: Seq<u8>) -> Seq<Option<Seq<Seq<char>>>> {
    csv_table(data).1
}

/// `csv::Reader::from_reader` on a byte slice: a reader with the default
/// settings (first row is the header, all rows of one length). What it will
/// read depends on the bytes alone.
#[verifier::external_body]
pub(crate) fn open_reader<'a>(data: &'a [u8]) -> (reader: csv::Reader<&'a [u8]>)
    ensures
        reader_is_default(reader),
        (reader_header(reader), reader_rows(reader)) == csv_table(data@),
{
    csv::Reader::from_reader(data)
}

/// `csv::Reader::headers`, cloned, on a reader with the default settings: the
/// header row, or the crate's error where that row is not valid text. The
/// data rows still to come stay as they were. (Under other settings the call
/// can change what the first data row holds, so those readers are left out.)
#[verifier::external_body]
pub(crate) fn read_headers(reader: &mut csv::Reader<&[u8]>) -> (headers: Result<csv::StringRecord, csv::Error>)
    requires
        reader_is_default(*old(reader)),
    ensures
        reader_is_default(*final(reader)),
        reader_header(*final(reader)) == reader_header(*old(reader)),
        reader_rows(*final(reader)) == reader_rows(*old(reader)),
        match headers {
            Ok(h) => reader_header(*old(reader)) == Some(record_fields(h)),
            Err(_) => reader_header(*old(reader)).is_none(),
        },
{
    reader.headers().cloned()
}

/// `csv::StringRecord::new`: a record without fields.
#[verifier::external_body]
pub(crate) fn new_record() -> (record: csv::StringRecord)
    ensures
        record_fields(record) == Seq::<Seq<char>>::empty(),
{
    csv::StringRecord::new()
}

/// `csv::Reader::read_record`: reads the next data row into `record` and
/// returns `Ok(true)`; `Ok(false)` when no row is left; the crate's error when
/// it rejects the next row, which is then passed over. The reader's settings
/// stay as they were.
#[verifier::external_body]
pub(crate) fn read_record(reader: &mut csv::Reader<&[u8]>, record: &mut csv::StringRecord) -> (read: Result<bool, csv::Error>)
    ensures
        reader_is_default(*final(reader)) == reader_is_default(*old(reader)),
        match read {
            Ok(true) => reader_rows(*old(reader)).len() > 0
                && reader_rows(*old(reader))[0] == Some(record_fields(*final(record)))
                && reader_rows(*final(reader)) == reader_rows(*old(reader)).skip(1),
            Ok(false) => reader_rows(*old(reader)).len() == 0
                && reader_rows(*final(reader)).len() == 0,
            Err(_) => reader_rows(*old(reader)).len() > 0
                && reader_rows(*old(reader))[0].is_none()
                && reader_rows(*final(reader)) == reader_rows(*old(reader)).skip(1),
        },
{
    reader.read_record(record)
}

/// `csv::StringRecord::len`: the number of fields.
#[verifier::external_body]
pub(crate) fn field_count(record: &csv::StringRecord) -> (n: usize)
    ensures
        n == record_fields(*record).len(),
{
    record.len()
}

/// `csv::StringRecord::get`: the field at position `i`, if there is one.
#[verifier::external_body]
pub(crate) fn field_at(record: &csv::StringRecord, i: usize) -> (field: Option<&str>)
    ensures
        match field {
            Some(s) => i < record_fields(*record).len() && s@ == record_fields(*record)[i as int],
            None => i >= record_fields(*record).len(),
        },
{
    record.get(i)
}

/// Position `i` is the one place where `header` holds `name`.
pub open spec fn is_only_column(header: Seq<Seq<char>>, name: Seq<char>, i: int) -> bool {
    &&& 0 <= i < header.len()
    &&& header[i] == name
    &&& forall|j: int| 0 <= j < header.len() && header[j] == name ==> j == i
}

/// `header` holds `name` exactly once.
pub open spec fn names_once(header: Seq<Seq<char>>, name: Seq<char>) -> bool {
    exists|i: int| is_only_column(header, name, i)
}

/// The one place where `header` holds `name`.
pub open spec fn column_of(header: Seq<Seq<char>>, name: Seq<char>) -> int {
    choose|i: int| is_only_column(header, name, i)
}

} // verus!
