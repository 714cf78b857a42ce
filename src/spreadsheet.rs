//! The tabular store: a column catalog, a row-indexed cell store, a cached
//! row count and a dirty flag.
//!
//! Rows and columns are addressed purely by position. Inserting a row shifts
//! every row at or below the insertion point down by one before the new
//! cells are written; deleting a range removes its cells and shifts every
//! later row up by the size of the range.

use crate::error::SheetError;
use crate::formats::{
    csv_records, csv_table, csv_text, headers_of, load_csv, records_of, rectangular, save_csv, table_fits,
    with_table, Format,
};
use vstd::prelude::*;

verus! {

/// Where to insert columns or a row.
#[derive(Clone, Copy, Debug, PartialEq, Eq, Structural)]
pub enum InsertPosition {
    /// At this index. An index outside the current bounds is clamped into
    /// them, so a negative index means the front and a large one the end.
    Index(i64),
    /// After the last existing column or row.
    End,
}

/// The text held by an optional string.
pub open spec fn opt_text(v: Option<String>) -> Option<Seq<char>> {
    match v {
        Some(s) => Some(s@),
        None => None,
    }
}

/// The texts of a sequence of strings.
pub open spec fn texts(v: Seq<String>) -> Seq<Seq<char>> {
    v.map_values(|s: String| s@)
}

/// The optional texts of a sequence of optional strings.
pub open spec fn opt_texts(v: Seq<Option<String>>) -> Seq<Option<Seq<char>>> {
    v.map_values(|c: Option<String>| opt_text(c))
}

/// The optional texts of a sequence of rows.
pub open spec fn rows_texts(v: Seq<Vec<Option<String>>>) -> Seq<Seq<Option<Seq<char>>>> {
    v.map_values(|r: Vec<Option<String>>| opt_texts(r@))
}

/// The cells that a row holds right after it was inserted with `values`:
/// `values[i]` in column `i`.
pub open spec fn stored_row(values: Seq<Seq<char>>) -> Seq<Option<Seq<char>>> {
    values.map_values(|v: Seq<char>| Some(v))
}

/// `x` moved into `[lo, hi]` (for `lo <= hi`).
pub open spec fn clamp(x: int, lo: int, hi: int) -> int {
    if x < lo {
        lo
    } else if x > hi {
        hi
    } else {
        x
    }
}

/// The mathematical model of a spreadsheet.
pub struct SheetView {
    /// Column names; the id of a column is its index here.
    pub columns: Seq<Seq<char>>,
    /// For each row, the cells stored in it, indexed by column id. A cell
    /// that was never written is simply not there.
    pub cells: Seq<Seq<Option<Seq<char>>>>,
    /// Whether there are modifications since the last load or save.
    pub dirty: bool,
}

impl SheetView {
    /// A spreadsheet with no columns, no rows and no modifications.
    pub open spec fn empty() -> SheetView {
        SheetView { columns: Seq::empty(), cells: Seq::empty(), dirty: false }
    }

    pub open spec fn row_count(self) -> int {
        self.cells.len() as int
    }

    pub open spec fn column_count(self) -> int {
        self.columns.len() as int
    }

    /// Whether a cell is stored at this position.
    pub open spec fn holds_cell(self, row: int, column: int) -> bool {
        0 <= row < self.cells.len() && 0 <= column < self.cells[row].len()
    }

    /// The value read back at a position: an absent cell reads as no value.
    pub open spec fn cell(self, row: int, column: int) -> Option<Seq<char>> {
        if self.holds_cell(row, column) {
            self.cells[row][column]
        } else {
            None
        }
    }

    /// A row as displayed: one optional value per column, in column order.
    pub open spec fn row_entry(self, row: int) -> Seq<Option<Seq<char>>> {
        Seq::new(self.columns.len(), |c: int| self.cell(row, c))
    }

    /// The rows `start..=end` as displayed, one entry per row index, rows
    /// without stored cells included. Empty when `end < start`.
    pub open spec fn rows_in(self, start: int, end: int) -> Seq<Seq<Option<Seq<char>>>> {
        let n = if start <= end {
            end - start + 1
        } else {
            0
        };
        Seq::new(n as nat, |i: int| self.row_entry(start + i))
    }

    /// The column index that an insert position stands for.
    pub open spec fn column_index(self, position: InsertPosition) -> int {
        match position {
            InsertPosition::Index(i) => clamp(i as int, 0, self.column_count()),
            InsertPosition::End => self.column_count(),
        }
    }

    /// The row index that an insert position stands for.
    pub open spec fn row_index(self, position: InsertPosition) -> int {
        match position {
            InsertPosition::Index(i) => clamp(i as int, 0, self.row_count()),
            InsertPosition::End => self.row_count(),
        }
    }

    /// A row index clamped into the existing rows.
    pub open spec fn clamp_row(self, row: int) -> int {
        clamp(row, 0, self.row_count() - 1)
    }

    /// Whether `delete_rows(start, end)` finds a non-empty range.
    pub open spec fn deletable(self, start: int, end: int) -> bool {
        self.row_count() > 0 && self.clamp_row(start) <= self.clamp_row(end)
    }

    /// `names` spliced into the columns at index `at`; the ids of the
    /// columns from `at` on grow by the number of names.
    pub open spec fn with_columns(self, at: int, names: Seq<Seq<char>>) -> SheetView {
        SheetView {
            columns: self.columns.take(at) + names + self.columns.skip(at),
            cells: self.cells,
            dirty: true,
        }
    }

    /// A row of `values` inserted at index `at`; the rows from `at` on move
    /// down by one.
    pub open spec fn with_row(self, at: int, values: Seq<Seq<char>>) -> SheetView {
        SheetView {
            columns: self.columns,
            cells: self.cells.insert(at, stored_row(values)),
            dirty: true,
        }
    }

    /// Rows `start..=end` removed; the rows after them move up.
    pub open spec fn without_rows(self, start: int, end: int) -> SheetView {
        SheetView {
            columns: self.columns,
            cells: self.cells.take(start) + self.cells.skip(end + 1),
            dirty: true,
        }
    }

    /// The stored cell at a position, if there is one, set to `value`.
    pub open spec fn with_cell(self, row: int, column: int, value: Option<Seq<char>>) -> SheetView {
        SheetView {
            columns: self.columns,
            cells: if self.holds_cell(row, column) {
                self.cells.update(row, self.cells[row].update(column, value))
            } else {
                self.cells
            },
            dirty: true,
        }
    }

    /// The same contents, marked as saved.
    pub open spec fn cleaned(self) -> SheetView {
        SheetView { columns: self.columns, cells: self.cells, dirty: false }
    }
}

/// A spreadsheet held in memory. Provides reading, editing and the
/// bookkeeping that loading and saving need.
pub struct Spreadsheet {
    /// Column names, by id.
    columns: Vec<String>,
    /// The cells of each row, by column id.
    rows: Vec<Vec<Option<String>>>,
    /// Number of rows, kept in step with `rows` by every mutation.
    row_count: i64,
    /// Whether the spreadsheet has been modified.
    dirty: bool,
}

impl View for Spreadsheet {
    type V = SheetView;

    closed spec fn view(&self) -> SheetView {
        SheetView { columns: texts(self.columns@), cells: rows_texts(self.rows@), dirty: self.dirty }
    }
}

impl Spreadsheet {
    /// The cached row count equals the number of rows, and the counts fit
    /// the integer type that reports them.
    pub closed spec fn wf(&self) -> bool {
        &&& self.row_count >= 0
        &&& self.rows@.len() == self.row_count as int
        &&& self.columns@.len() <= i64::MAX
    }

    /// Create a new, blank spreadsheet.
    pub fn new() -> (r: Self)
        ensures
            r.wf(),
            r@ == SheetView::empty(),
    {
        let r = Spreadsheet { columns: Vec::new(), rows: Vec::new(), row_count: 0, dirty: false };
        assert(r@.columns =~= Seq::<Seq<char>>::empty());
        assert(r@.cells =~= Seq::<Seq<Option<Seq<char>>>>::empty());
        r
    }

    /// Check if the spreadsheet has been modified.
    pub fn is_dirty(&self) -> (r: bool)
        ensures
            r == self@.dirty,
    {
        self.dirty
    }

    /// Clear the dirty flag if set.
    pub fn clear_dirty(&mut self)
        requires
            old(self).wf(),
        ensures
            final(self).wf(),
            final(self)@ == old(self)@.cleaned(),
    {
        self.dirty = false;
    }

    /// Get the number of columns in the spreadsheet.
    pub fn get_column_count(&self) -> (r: i64)
        requires
            self.wf(),
        ensures
            r as int == self@.column_count(),
    {
        self.columns.len() as i64
    }

    /// Get the number of rows in the spreadsheet.
    pub fn get_row_count(&self) -> (r: i64)
        requires
            self.wf(),
        ensures
            r as int == self@.row_count(),
    {
        self.row_count
    }
    /// Delete the rows `start..=end`.
    ///
    /// Both ends are first clamped into the existing rows. The range is
    /// refused with [`SheetError::Validation`], and nothing changes, when it
    /// is empty after clamping: `start > end` or no rows at all. Otherwise
    /// the cells of the range are removed and every later row moves up by
    /// the number of rows removed.
    pub fn delete_rows(&mut self, start: i64, end: i64) -> (r: Result<(), SheetError>)
        requires
            old(self).wf(),
        ensures
            final(self).wf(),
            r is Ok <==> old(self)@.deletable(start as int, end as int),
            r is Ok ==> final(self)@ == old(self)@.without_rows(
                old(self)@.clamp_row(start as int),
                old(self)@.clamp_row(end as int),
            ),
            r is Err ==> (r matches Err(SheetError::Validation)) && final(self)@ == old(self)@,
    {
        if self.row_count == 0 {
            return Err(SheetError::Validation);
        }
        let last = self.row_count - 1;
        let first_row = if start < 0 {
            0
        } else if start > last {
            last
        } else {
            start
        };
        let last_row = if end < 0 {
            0
        } else if end > last {
            last
        } else {
            end
        };
        if first_row > last_row {
            return Err(SheetError::Validation);
        }
        let count = last_row - first_row + 1;
        assert(self.rows@.len() == self.rows.len());
        let ghost prev = self.rows@;
        // Remove the cells of the range, then close the gap.
        let mut tail = self.rows.split_off((last_row + 1) as usize);
        self.rows.truncate(first_row as usize);
        self.rows.append(&mut tail);
        self.row_count = self.row_count - count;
        self.dirty = true;
        assert(self.rows@ =~= prev.take(first_row as int) + prev.skip(last_row + 1));
        assert(rows_texts(self.rows@) =~= rows_texts(prev).take(first_row as int) + rows_texts(
            prev,
        ).skip(last_row + 1));
        Ok(())
    }

    /// Insert a row of `values` (`values[i]` in column `i`) at `position`.
    ///
    /// Every row at or after the insertion index moves down by one before
    /// the new cells are written; appending at the end moves nothing. Fails
    /// with [`SheetError::Storage`], changing nothing, when the row count is
    /// already the largest that an `i64` holds.
    pub fn insert_row(&mut self, position: InsertPosition, values: Vec<String>) -> (r: Result<(), SheetError>)
        requires
            old(self).wf(),
        ensures
            final(self).wf(),
            r is Ok <==> old(self)@.row_count() < i64::MAX,
            r is Ok ==> final(self)@ == old(self)@.with_row(
                old(self)@.row_index(position),
                texts(values@),
            ),
            r is Err ==> (r matches Err(SheetError::Storage(_))) && final(self)@ == old(self)@,
    {
        if self.row_count == i64::MAX {
            return Err(SheetError::Storage("the spreadsheet already holds the most rows it can".to_owned()));
        }
        let mut cells: Vec<Option<String>> = Vec::new();
        let mut i: usize = 0;
        while i < values.len()
            invariant
                i <= values@.len(),
                cells@.len() == i,
                forall|j: int| 0 <= j < i ==> #[trigger] cells@[j] == Some(values@[j]),
            decreases values@.len() - i,
        {
            cells.push(Some(values[i].clone()));
            i = i + 1;
        }
        assert(opt_texts(cells@) =~= stored_row(texts(values@)));
        let ghost prev = self.rows@;
        assert(self.rows@.len() == self.rows.len());
        let at: usize = match position {
            InsertPosition::End => self.rows.len(),
            InsertPosition::Index(i) => if i < 0 {
                0
            } else if i >= self.row_count {
                self.rows.len()
            } else {
                i as usize
            },
        };
        if at == self.rows.len() {
            self.rows.push(cells);
        } else {
            self.rows.insert(at, cells);
        }
        self.row_count = self.row_count + 1;
        self.dirty = true;
        assert(self.rows@ =~= prev.insert(at as int, cells));
        assert(rows_texts(self.rows@) =~= rows_texts(prev).insert(at as int, stored_row(texts(values@))));
        Ok(())
    }
    /// Inserts `names` as columns starting at `position`.
    ///
    /// Every existing column whose id is at least the insertion index is
    /// shifted right by `names.len()` before the new columns are written, so
    /// no two columns share an id. Stored cells keep their column ids. Fails
    /// with [`SheetError::Storage`], changing nothing, when the column count
    /// would no longer fit an `i64`.
    pub fn insert_columns(&mut self, position: InsertPosition, names: Vec<String>) -> (r: Result<(), SheetError>)
        requires
            old(self).wf(),
        ensures
            final(self).wf(),
            r is Ok <==> old(self)@.column_count() + names@.len() <= i64::MAX,
            r is Ok ==> final(self)@ == old(self)@.with_columns(
                old(self)@.column_index(position),
                texts(names@),
            ),
            r is Err ==> (r matches Err(SheetError::Storage(_))) && final(self)@ == old(self)@,
    {
        let count: usize = self.columns.len();
        if names.len() as u64 > (i64::MAX as u64) - (count as u64) {
            return Err(SheetError::Storage("the spreadsheet already holds the most columns it can".to_owned()));
        }
        let at: usize = match position {
            InsertPosition::End => count,
            InsertPosition::Index(i) => if i < 0 {
                0
            } else if i as u64 >= count as u64 {
                count
            } else {
                i as usize
            },
        };
        let ghost prev = self.columns@;
        // Move the columns from the insertion index on out of the way first.
        let mut shifted = self.columns.split_off(at);
        let mut k: usize = 0;
        while k < names.len()
            invariant
                k <= names@.len(),
                at <= prev.len(),
                shifted@ == prev.subrange(at as int, prev.len() as int),
                prev == old(self).columns@,
                prev.len() + names@.len() <= i64::MAX,
                self.rows == old(self).rows,
                self.row_count == old(self).row_count,
                self.dirty == old(self).dirty,
                self.columns@.len() == at + k,
                forall|j: int| 0 <= j < at ==> #[trigger] self.columns@[j] == prev[j],
                forall|j: int| at <= j < at + k ==> #[trigger] self.columns@[j] == names@[j - at],
            decreases names@.len() - k,
        {
            self.columns.push(names[k].clone());
            k = k + 1;
        }
        self.columns.append(&mut shifted);
        self.dirty = true;
        assert(self.columns@ =~= prev.take(at as int) + names@ + prev.skip(at as int));
        assert(texts(self.columns@) =~= texts(prev).take(at as int) + texts(names@) + texts(prev).skip(
            at as int,
        )) by {
            let a = prev.take(at as int);
            let b = names@;
            let c = prev.skip(at as int);
            assert(texts(a + b + c) =~= texts(a) + texts(b) + texts(c)) by {
                assert forall|j: int| 0 <= j < (a + b + c).len() implies #[trigger] texts(a + b + c)[j] == (
                texts(a) + texts(b) + texts(c))[j] by {
                    if j < a.len() {
                    } else if j < a.len() + b.len() {
                    } else {
                    }
                }
            }
            assert(texts(a) =~= texts(prev).take(at as int));
            assert(texts(c) =~= texts(prev).skip(at as int));
        }
        Ok(())
    }

    /// Get the spreadsheet columns, ordered by id.
    pub fn get_columns(&self) -> (r: Vec<String>)
        requires
            self.wf(),
        ensures
            texts(r@) == self@.columns,
    {
        let mut names: Vec<String> = Vec::new();
        let mut k: usize = 0;
        while k < self.columns.len()
            invariant
                k <= self.columns@.len(),
                names@.len() == k,
                forall|j: int| 0 <= j < k ==> #[trigger] names@[j] == self.columns@[j],
            decreases self.columns@.len() - k,
        {
            names.push(self.columns[k].clone());
            k = k + 1;
        }
        assert(texts(names@) =~= texts(self.columns@));
        names
    }

    /// Get the value of a specific cell; a position without a stored cell
    /// has no value.
    pub fn get_cell(&self, row: i64, column: i64) -> (r: Option<String>)
        requires
            self.wf(),
        ensures
            opt_text(r) == self@.cell(row as int, column as int),
    {
        if row < 0 || column < 0 || row >= self.row_count {
            return None;
        }
        assert(self.rows@.len() == self.rows.len());
        let cells = &self.rows[row as usize];
        if column as u64 >= cells.len() as u64 {
            return None;
        }
        assert(opt_texts(cells@)[column as int] == opt_text(cells@[column as int]));
        match &cells[column as usize] {
            Some(text) => Some(text.clone()),
            None => None,
        }
    }

    /// Set the value of a stored cell. A position without a stored cell is
    /// left as it is; the spreadsheet is marked as modified either way.
    pub fn set_cell(&mut self, row: i64, column: i64, value: Option<String>) -> (r: Result<(), SheetError>)
        requires
            old(self).wf(),
        ensures
            final(self).wf(),
            r is Ok,
            final(self)@ == old(self)@.with_cell(row as int, column as int, opt_text(value)),
    {
        let ghost prev = self.rows@;
        self.dirty = true;
        if row < 0 || column < 0 || row >= self.row_count {
            return Ok(());
        }
        assert(self.rows@.len() == self.rows.len());
        let r = row as usize;
        if column as u64 >= self.rows[r].len() as u64 {
            return Ok(());
        }
        let c = column as usize;
        let ghost old_row = self.rows@[r as int];
        self.rows[r][c] = value;
        assert(self.rows@ == prev.update(r as int, self.rows@[r as int]));
        assert(self.rows@[r as int]@ == old_row@.update(c as int, value));
        assert(opt_texts(self.rows@[r as int]@) =~= opt_texts(old_row@).update(c as int, opt_text(value)));
        assert(rows_texts(self.rows@) =~= rows_texts(prev).update(
            r as int,
            rows_texts(prev)[r as int].update(c as int, opt_text(value)),
        ));
        Ok(())
    }

    /// One row as displayed: one optional value per column, absent cells
    /// included as no value.
    fn read_row(&self, row: i64) -> (r: Vec<Option<String>>)
        requires
            self.wf(),
        ensures
            opt_texts(r@) == self@.row_entry(row as int),
    {
        let mut values: Vec<Option<String>> = Vec::new();
        let mut c: usize = 0;
        while c < self.columns.len()
            invariant
                self.wf(),
                c <= self.columns@.len(),
                values@.len() == c,
                forall|j: int| 0 <= j < c ==> #[trigger] opt_text(values@[j]) == self@.cell(row as int, j),
            decreases self.columns@.len() - c,
        {
            let value = self.get_cell(row, c as i64);
            values.push(value);
            c = c + 1;
        }
        assert(opt_texts(values@) =~= self@.row_entry(row as int));
        values
    }

    /// Get the rows `start..=end`: exactly one entry per row index, in
    /// ascending order, each with one optional value per column in column
    /// order. Rows without stored cells come back as rows of no values. An
    /// empty range (`end < start`) gives no rows.
    pub fn get_rows(&self, start: i64, end: i64) -> (r: Result<Vec<Vec<Option<String>>>, SheetError>)
        requires
            self.wf(),
        ensures
            r is Ok,
            r matches Ok(rows) ==> rows_texts(rows@) == self@.rows_in(start as int, end as int),
            r matches Ok(rows) ==> rows@.len() == (if start <= end {
                end - start + 1
            } else {
                0
            }),
            r matches Ok(rows) ==> forall|i: int|
                0 <= i < rows@.len() ==> #[trigger] rows@[i]@.len() == self@.column_count(),
    {
        let mut rows: Vec<Vec<Option<String>>> = Vec::new();
        let mut row: i128 = start as i128;
        while row <= end as i128
            invariant
                self.wf(),
                start <= row <= end as int + 1 || (row == start && end < start),
                rows@.len() == row - start,
                forall|j: int| 0 <= j < rows@.len() ==> #[trigger] opt_texts(rows@[j]@) == self@.row_entry(start + j),
            decreases end as int + 1 - row,
        {
            let values = self.read_row(row as i64);
            rows.push(values);
            row = row + 1;
        }
        assert(rows_texts(rows@) =~= self@.rows_in(start as int, end as int));
        assert forall|i: int| 0 <= i < rows@.len() implies #[trigger] rows@[i]@.len() == self@.column_count() by {
            assert(opt_texts(rows@[i]@).len() == rows@[i]@.len());
        }
        Ok(rows)
    }
    /// Open a spreadsheet from the bytes of a file whose declared kind (its
    /// extension) is `kind`.
    ///
    /// Fails with [`SheetError::UnsupportedFormat`] when no format adapter is
    /// registered for the kind, and with [`SheetError::Storage`] when the
    /// adapter cannot read the bytes. A freshly opened spreadsheet is never
    /// reported as modified, and every one of its rows holds a cell for
    /// every column.
    pub fn open(kind: &str, bytes: &[u8]) -> (r: Result<Spreadsheet, SheetError>)
        ensures
            Format::spec_from_kind(kind@) is None ==> (r matches Err(SheetError::UnsupportedFormat)),
            Format::spec_from_kind(kind@) is Some ==> (r is Ok <==> (csv_records(bytes@) matches Some(t)
                && table_fits(SheetView::empty(), t))),
            Format::spec_from_kind(kind@) is Some && r is Err ==> (r matches Err(SheetError::Storage(_))),
            r matches Ok(s) ==> s.wf() && s@ == with_table(
                SheetView::empty(),
                headers_of(csv_records(bytes@)->0),
                records_of(csv_records(bytes@)->0),
            ).cleaned(),
            r is Ok ==> rectangular(csv_records(bytes@)->0),
            r matches Ok(s) ==> forall|i: int|
                0 <= i < s@.row_count() ==> #[trigger] s@.cells[i].len() == s@.column_count(),
    {
        match Format::from_kind(kind) {
            None => Err(SheetError::UnsupportedFormat),
            Some(Format::Csv) => {
                let mut spreadsheet = Spreadsheet::new();
                match load_csv(bytes, &mut spreadsheet) {
                    Ok(()) => {
                        spreadsheet.clear_dirty();
                        Ok(spreadsheet)
                    },
                    Err(e) => Err(e),
                }
            },
        }
    }

    /// The bytes of this spreadsheet in the format of the declared kind
    /// `kind`, ready to be written to a file; the dirty flag is left to
    /// [`Spreadsheet::clear_dirty`] once they are stored.
    ///
    /// Fails with [`SheetError::UnsupportedFormat`] when no format adapter is
    /// registered for the kind, and with [`SheetError::Storage`] when the
    /// adapter cannot write the contents.
    pub fn save(&self, kind: &str) -> (r: Result<Vec<u8>, SheetError>)
        requires
            self.wf(),
        ensures
            Format::spec_from_kind(kind@) is None ==> (r matches Err(SheetError::UnsupportedFormat)),
            Format::spec_from_kind(kind@) is Some ==> (r is Ok <==> csv_text(csv_table(self@)) is Some),
            Format::spec_from_kind(kind@) is Some && r is Err ==> (r matches Err(SheetError::Storage(_))),
            r matches Ok(b) ==> csv_text(csv_table(self@)) == Some(b@),
    {
        match Format::from_kind(kind) {
            None => Err(SheetError::UnsupportedFormat),
            Some(Format::Csv) => save_csv(self),
        }
    }
}

} // verus!
