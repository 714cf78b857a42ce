//! Facts about the spreadsheet model that relate several operations. The
//! operations' contracts are stated over [`SheetView`]; these are proved
//! from the same definitions.

use crate::formats::{csv_table, headers_of, records_of, rectangular, text_or_empty, with_table};
use crate::spreadsheet::{stored_row, InsertPosition, SheetView};
use vstd::prelude::*;

verus! {

/// Inserting columns splices `names` into the column list at the insertion
/// index: the columns before it keep their ids, the new names take the ids
/// from the index on, and every column that had an id at or past the index
/// now has that id plus `names.len()`.
pub proof fn law_insert_columns_splices(v: SheetView, position: InsertPosition, names: Seq<Seq<char>>)
    ensures
        ({
            let at = v.column_index(position);
            let w = v.with_columns(at, names);
            &&& 0 <= at <= v.column_count()
            &&& forall|i: i64| position == InsertPosition::Index(i) && 0 <= i <= v.column_count() ==> at == i
            &&& w.column_count() == v.column_count() + names.len()
            &&& forall|c: int| 0 <= c < at ==> #[trigger] w.columns[c] == v.columns[c]
            &&& forall|j: int| 0 <= j < names.len() ==> #[trigger] w.columns[at + j] == names[j]
            &&& forall|c: int| at <= c < v.column_count() ==> #[trigger] w.columns[c + names.len()] == v.columns[c]
            &&& w.cells == v.cells
            &&& w.dirty
        }),
{
}

/// Appending a row of one value per column adds exactly one row, and
/// reading that last row back gives the values.
pub proof fn law_append_row_reads_back(v: SheetView, values: Seq<Seq<char>>)
    requires
        values.len() == v.column_count(),
    ensures
        ({
            let w = v.with_row(v.row_index(InsertPosition::End), values);
            &&& w.row_count() == v.row_count() + 1
            &&& w.rows_in(w.row_count() - 1, w.row_count() - 1) == seq![values.map_values(|t: Seq<char>| Some(t))]
        }),
{
    let w = v.with_row(v.row_index(InsertPosition::End), values);
    let n = v.row_count();
    assert(w.cells[n] == stored_row(values));
    assert(w.row_entry(n) =~= values.map_values(|t: Seq<char>| Some(t)));
    assert(w.rows_in(n, n) =~= seq![values.map_values(|t: Seq<char>| Some(t))]);
}

/// Deleting an in-range span `start..=end` removes exactly
/// `end - start + 1` rows; the rows before it stay where they were and every
/// row after it moves up by that count, contents unchanged.
pub proof fn law_delete_rows_shifts_up(v: SheetView, start: int, end: int)
    requires
        0 <= start <= end < v.row_count(),
    ensures
        v.deletable(start, end),
        v.clamp_row(start) == start,
        v.clamp_row(end) == end,
        ({
            let w = v.without_rows(start, end);
            let count = end - start + 1;
            &&& w.row_count() == v.row_count() - count
            &&& forall|r: int| 0 <= r < start ==> #[trigger] w.row_entry(r) == v.row_entry(r)
            &&& forall|r: int| end < r < v.row_count() ==> #[trigger] w.row_entry(r - count) == v.row_entry(r)
        }),
{
    let w = v.without_rows(start, end);
    let count = end - start + 1;
    assert forall|r: int| 0 <= r < start implies #[trigger] w.row_entry(r) == v.row_entry(r) by {
        assert(w.cells[r] == v.cells[r]);
        assert(w.row_entry(r) =~= v.row_entry(r));
    }
    assert forall|r: int| end < r < v.row_count() implies #[trigger] w.row_entry(r - count) == v.row_entry(r) by {
        assert(w.cells[r - count] == v.cells[r]);
        assert(w.row_entry(r - count) =~= v.row_entry(r));
    }
}

/// Every edit marks a spreadsheet as modified, whatever it was before.
pub proof fn law_edits_mark_dirty(
    v: SheetView,
    at: int,
    names: Seq<Seq<char>>,
    values: Seq<Seq<char>>,
    start: int,
    end: int,
    row: int,
    column: int,
    value: Option<Seq<char>>,
)
    ensures
        v.with_columns(at, names).dirty,
        v.with_row(at, values).dirty,
        v.without_rows(start, end).dirty,
        v.with_cell(row, column, value).dirty,
        !v.cleaned().dirty,
{
}

/// A range read has exactly one entry per row index of a non-empty range,
/// and every entry has one slot per column, also for rows with no stored
/// cells, whose slots all hold no value.
pub proof fn law_rows_in_is_dense(v: SheetView, start: int, end: int)
    requires
        start <= end + 1,
    ensures
        v.rows_in(start, end).len() == end - start + 1,
        forall|i: int| 0 <= i < end - start + 1 ==> #[trigger] v.rows_in(start, end)[i].len() == v.column_count(),
        forall|i: int, c: int|
            0 <= i < end - start + 1 && 0 <= c < v.column_count() && !(0 <= start + i < v.row_count()
                && v.cells[start + i].len() > 0) ==> #[trigger] v.rows_in(start, end)[i][c] is None,
{
}

/// Opening a non-empty table of records (headers, then records of as many
/// fields, as the CSV reader hands over) into a fresh spreadsheet gives a
/// spreadsheet that is not modified and that hands the CSV writer the same
/// table on saving: the same column names and every row value, text for
/// text.
pub proof fn law_load_then_save_keeps_table(t: Seq<Seq<Seq<char>>>)
    requires
        t.len() > 0,
        rectangular(t),
    ensures
        !with_table(SheetView::empty(), headers_of(t), records_of(t)).cleaned().dirty,
        csv_table(with_table(SheetView::empty(), headers_of(t), records_of(t)).cleaned()) == t,
{
    let v = with_table(SheetView::empty(), headers_of(t), records_of(t)).cleaned();
    let records = records_of(t);
    assert(v.columns =~= t[0]);
    assert(v.cells =~= records.map_values(|r: Seq<Seq<char>>| stored_row(r)));
    let shown = v.rows_in(0, v.row_count() - 1).map_values(
        |row: Seq<Option<Seq<char>>>| row.map_values(|c: Option<Seq<char>>| text_or_empty(c)),
    );
    assert forall|r: int| 0 <= r < records.len() implies #[trigger] shown[r] == records[r] by {
        assert(records[r] == t[r + 1]);
        assert(v.cells[r] == stored_row(records[r]));
        assert(shown[r] =~= records[r]);
    }
    assert(csv_table(v) =~= t);
}

} // verus!
