//! Format adapters: convert between a file's bytes and the spreadsheet's
//! column and row insertion and range-read calls.
//!
//! The CSV adapter relies on the `csv` crate to split bytes into records and
//! to write records as bytes; everything around those two calls is checked
//! here.

use crate::error::SheetError;
use crate::spreadsheet::{stored_row, texts, InsertPosition, SheetView, Spreadsheet};
use vstd::prelude::*;

verus! {

/// The error type of the `csv` crate, carried opaquely from its reader and
/// writer to [`SheetError::Storage`].
#[verifier::external_type_specification]
#[verifier::external_body]
pub struct ExCsvError(csv::Error);

/// The records that the `csv` crate's reader finds in `bytes` when it takes
/// no row as a header, each a sequence of fields; `None` where it reports an
/// error (malformed UTF-8, records of unequal lengths).
pub uninterp spec fn csv_records(bytes: Seq<u8>) -> Option<Seq<Seq<Seq<char>>>>;

/// The bytes that the `csv` crate's writer produces for these records, in
/// order; `None` where it reports an error.
pub uninterp spec fn csv_text(records: Seq<Seq<Seq<char>>>) -> Option<Seq<u8>>;

/// The texts of a table of strings.
pub open spec fn table_texts(t: Seq<Vec<String>>) -> Seq<Seq<Seq<char>>> {
    t.map_values(|r: Vec<String>| texts(r@))
}

/// How the CSV adapter writes a cell: its text, or nothing for no value.
pub open spec fn text_or_empty(v: Option<Seq<char>>) -> Seq<char> {
    match v {
        Some(t) => t,
        None => Seq::empty(),
    }
}

/// What the CSV adapter hands to the writer: the column names, then every
/// row as displayed, with no value written as empty text.
pub open spec fn csv_table(v: SheetView) -> Seq<Seq<Seq<char>>> {
    seq![v.columns] + v.rows_in(0, v.row_count() - 1).map_values(
        |row: Seq<Option<Seq<char>>>| row.map_values(|c: Option<Seq<char>>| text_or_empty(c)),
    )
}

/// Whether every record of a table has as many fields as the first.
pub open spec fn rectangular(t: Seq<Seq<Seq<char>>>) -> bool {
    forall|i: int| 0 <= i < t.len() ==> #[trigger] t[i].len() == t[0].len()
}

/// The header names of a table of records: its first record.
pub open spec fn headers_of(t: Seq<Seq<Seq<char>>>) -> Seq<Seq<char>> {
    if t.len() == 0 {
        Seq::empty()
    } else {
        t[0]
    }
}

/// The data records of a table: all records after the first.
pub open spec fn records_of(t: Seq<Seq<Seq<char>>>) -> Seq<Seq<Seq<char>>> {
    if t.len() == 0 {
        Seq::empty()
    } else {
        t.drop_first()
    }
}

/// `headers` appended as columns and `records` appended as rows, in order.
pub open spec fn with_table(v: SheetView, headers: Seq<Seq<char>>, records: Seq<Seq<Seq<char>>>) -> SheetView {
    SheetView {
        columns: v.columns + headers,
        cells: v.cells + records.map_values(|r: Seq<Seq<char>>| stored_row(r)),
        dirty: true,
    }
}

/// Whether a table's headers and records fit beside what `v` holds without
/// a count leaving the range of an `i64`.
pub open spec fn table_fits(v: SheetView, t: Seq<Seq<Seq<char>>>) -> bool {
    &&& v.column_count() + headers_of(t).len() <= i64::MAX
    &&& v.row_count() + records_of(t).len() <= i64::MAX
}

/// The file kinds that have a format adapter.
#[derive(Clone, Copy, Debug, PartialEq, Eq, Structural)]
pub enum Format {
    Csv,
}

impl Format {
    /// The format for a declared kind (a file extension), if one is
    /// registered: `csv` only.
    pub open spec fn spec_from_kind(kind: Seq<char>) -> Option<Format> {
        if kind == "csv"@ {
            Some(Format::Csv)
        } else {
            None
        }
    }

    /// Select the format adapter for a declared kind (a file extension).
    pub fn from_kind(kind: &str) -> (r: Option<Format>)
        ensures
            r == Format::spec_from_kind(kind@),
    {
        let kind: String = kind.to_owned();
        let csv: String = "csv".to_owned();
        if kind == csv {
            Some(Format::Csv)
        } else {
            None
        }
    }
}

/// Relies on csv::ReaderBuilder (with no header row) and Reader::records:
/// every record of `bytes` in order, or the first error; the outcome depends
/// on the bytes alone. Records are not flexible (the builder's default), so
/// a record with another number of fields than an earlier one is an error.
#[verifier::external_body]
fn read_records(bytes: &[u8]) -> (r: Result<Vec<Vec<String>>, csv::Error>)
    ensures
        match r {
            Ok(t) => csv_records(bytes@) == Some(table_texts(t@)),
            Err(_) => csv_records(bytes@) is None,
        },
        r matches Ok(t) ==> rectangular(table_texts(t@)),
{
    let mut reader = csv::ReaderBuilder::new().has_headers(false).from_reader(bytes);
    reader.records().map(|record| record.map(|fields| fields.iter().map(String::from).collect())).collect()
}

/// Relies on csv::Writer::write_record and Writer::into_inner, writing into
/// memory: the bytes of the records in order, or the first error; the
/// outcome depends on the records alone.
#[verifier::external_body]
fn write_records(records: &Vec<Vec<String>>) -> (r: Result<Vec<u8>, csv::Error>)
    ensures
        match r {
            Ok(b) => csv_text(table_texts(records@)) == Some(b@),
            Err(_) => csv_text(table_texts(records@)) is None,
        },
{
    let mut writer = csv::Writer::from_writer(Vec::new());
    for record in records {
        writer.write_record(record)?;
    }
    writer.into_inner().map_err(|e| csv::Error::from(e.into_error()))
}

/// Relies on the Display impl of csv::Error: a description for the user.
#[verifier::external_body]
fn csv_error_text(e: &csv::Error) -> String {
    e.to_string()
}

/// A copy of a sequence of strings.
fn copy_texts(v: &Vec<String>) -> (r: Vec<String>)
    ensures
        r@ == v@,
{
    let mut out: Vec<String> = Vec::new();
    let mut k: usize = 0;
    while k < v.len()
        invariant
            k <= v@.len(),
            out@.len() == k,
            forall|j: int| 0 <= j < k ==> #[trigger] out@[j] == v@[j],
        decreases v@.len() - k,
    {
        out.push(v[k].clone());
        k = k + 1;
    }
    assert(out@ =~= v@);
    out
}

/// A displayed row as the CSV adapter writes it: no value becomes empty
/// text.
fn row_as_texts(row: &Vec<Option<String>>) -> (r: Vec<String>)
    ensures
        texts(r@) == crate::spreadsheet::opt_texts(row@).map_values(|c: Option<Seq<char>>| text_or_empty(c)),
{
    let mut out: Vec<String> = Vec::new();
    let mut k: usize = 0;
    while k < row.len()
        invariant
            k <= row@.len(),
            out@.len() == k,
            forall|j: int| 0 <= j < k ==> #[trigger] out@[j]@ == text_or_empty(crate::spreadsheet::opt_text(row@[j])),
        decreases row@.len() - k,
    {
        let text = match &row[k] {
            Some(t) => t.clone(),
            None => String::new(),
        };
        out.push(text);
        k = k + 1;
    }
    assert(texts(out@) =~= crate::spreadsheet::opt_texts(row@).map_values(|c: Option<Seq<char>>| text_or_empty(c)));
    out
}

/// Load CSV bytes into a spreadsheet: the first record becomes columns
/// appended at the end, every later record a row appended at the end, in
/// order.
///
/// When the reader reports an error, or the table would take a count past
/// what an `i64` holds, the result is [`SheetError::Storage`] and the
/// spreadsheet is left as it was.
pub fn load_csv(bytes: &[u8], spreadsheet: &mut Spreadsheet) -> (r: Result<(), SheetError>)
    requires
        old(spreadsheet).wf(),
    ensures
        final(spreadsheet).wf(),
        r is Ok <==> (csv_records(bytes@) matches Some(t) && table_fits(old(spreadsheet)@, t)),
        r is Ok ==> rectangular(csv_records(bytes@)->0),
        r is Ok ==> final(spreadsheet)@ == with_table(
            old(spreadsheet)@,
            headers_of(csv_records(bytes@)->0),
            records_of(csv_records(bytes@)->0),
        ),
        r is Err ==> (r matches Err(SheetError::Storage(_))) && final(spreadsheet)@ == old(spreadsheet)@,
{
    let mut records = match read_records(bytes) {
        Ok(t) => t,
        Err(e) => return Err(SheetError::Storage(csv_error_text(&e))),
    };
    let ghost table = table_texts(records@);
    let headers: Vec<String> = if records.len() == 0 {
        Vec::new()
    } else {
        records.remove(0)
    };
    assert(texts(headers@) == headers_of(table));
    assert(table_texts(records@) =~= records_of(table));
    let column_count = spreadsheet.get_column_count();
    let row_count = spreadsheet.get_row_count();
    if headers.len() as u64 > (i64::MAX - column_count) as u64 || records.len() as u64 > (i64::MAX
        - row_count) as u64 {
        return Err(SheetError::Storage("the file holds more than a spreadsheet can".to_owned()));
    }
    let ghost start = spreadsheet@;
    let ghost names = texts(headers@);
    let inserted = spreadsheet.insert_columns(InsertPosition::End, headers);
    assert(inserted is Ok);
    assert(spreadsheet@.columns =~= start.columns + names);
    let mut i: usize = 0;
    while i < records.len()
        invariant
            spreadsheet.wf(),
            i <= records@.len(),
            start.row_count() + records@.len() <= i64::MAX,
            spreadsheet@ == with_table(start, names, table_texts(records@).take(i as int)),
        decreases records@.len() - i,
    {
        let values = copy_texts(&records[i]);
        let inserted = spreadsheet.insert_row(InsertPosition::End, values);
        assert(inserted is Ok);
        assert(table_texts(records@).take(i + 1) =~= table_texts(records@).take(i as int).push(
            texts(records@[i as int]@),
        ));
        assert(spreadsheet@.cells =~= with_table(start, names, table_texts(records@).take(i + 1)).cells);
        i = i + 1;
    }
    assert(table_texts(records@).take(i as int) =~= table_texts(records@));
    Ok(())
}

/// Save a spreadsheet as CSV bytes: the column names, then every row as
/// displayed, with no value written as an empty field.
///
/// When the writer reports an error, the result is [`SheetError::Storage`].
pub fn save_csv(spreadsheet: &Spreadsheet) -> (r: Result<Vec<u8>, SheetError>)
    requires
        spreadsheet.wf(),
    ensures
        r is Ok <==> csv_text(csv_table(spreadsheet@)) is Some,
        r matches Ok(b) ==> csv_text(csv_table(spreadsheet@)) == Some(b@),
        r is Err ==> (r matches Err(SheetError::Storage(_))),
{
    let mut table: Vec<Vec<String>> = Vec::new();
    table.push(spreadsheet.get_columns());
    let rows = match spreadsheet.get_rows(0, spreadsheet.get_row_count() - 1) {
        Ok(rows) => rows,
        Err(e) => return Err(e),
    };
    let ghost shown = spreadsheet@.rows_in(0, spreadsheet@.row_count() - 1);
    let mut k: usize = 0;
    while k < rows.len()
        invariant
            k <= rows@.len(),
            crate::spreadsheet::rows_texts(rows@) == shown,
            table@.len() == k + 1,
            texts(table@[0]@) == spreadsheet@.columns,
            forall|j: int| 0 <= j < k ==> #[trigger] texts(table@[j + 1]@) == shown[j].map_values(
                |c: Option<Seq<char>>| text_or_empty(c),
            ),
        decreases rows@.len() - k,
    {
        let row = row_as_texts(&rows[k]);
        table.push(row);
        k = k + 1;
    }
    assert(table_texts(table@) =~= csv_table(spreadsheet@)) by {
        assert forall|j: int| 0 <= j < table@.len() implies #[trigger] table_texts(table@)[j] == csv_table(
            spreadsheet@,
        )[j] by {
            if j > 0 {
                assert(texts(table@[(j - 1) + 1]@) == shown[j - 1].map_values(
                    |c: Option<Seq<char>>| text_or_empty(c),
                ));
            }
        }
    }
    match write_records(&table) {
        Ok(bytes) => Ok(bytes),
        Err(e) => Err(SheetError::Storage(csv_error_text(&e))),
    }
}

} // verus!
