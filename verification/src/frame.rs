//! The data frame: one growable column per column of the schema, filled in
//! lock-step, one row per record.

use vstd::prelude::*;
use crate::column::{
    integer_builder_items, text_builder_items, text_bytes, text_item, ColumnArray, IntegerBuilder,
    TextBuilder, TEXT_LIMIT,
};
use crate::record::{cell_bytes, cell_fits, cells_bytes, conforms, CellValue, Record};
use crate::schema::{rule_at, ColumnType, COLUMN_COUNT, SCHEMA};
use crate::table::{
    array_cells, array_rows, column_of, integer_cell, rows_of, text_cell, Table,
};

verus! {

/// Why a row was not appended.
#[derive(Clone, Copy, Debug, PartialEq, Eq, Structural)]
pub enum FrameError {
    /// The frame has no room for the row.
    Full,
}

/// The bytes that the text of column `j` of `rows` takes in UTF-8.
pub open spec fn column_bytes(rows: Seq<Seq<CellValue>>, j: int) -> nat {
    cells_bytes(column_of(rows, j))
}

/// Whether no column of `rows` holds more than `limit` bytes of text.
pub open spec fn within(rows: Seq<Seq<CellValue>>, limit: nat) -> bool {
    forall|j: int| 0 <= j < COLUMN_COUNT ==> #[trigger] column_bytes(rows, j) <= limit
}

/// Whether a frame that holds `rows`, and may hold `limit` bytes of text in
/// each column, has room for `record`: the rows can still be counted, and
/// every column with its value of the record stays within the limit.
pub open spec fn has_room(rows: Seq<Seq<CellValue>>, limit: nat, record: Seq<CellValue>) -> bool {
    &&& rows.len() < usize::MAX
    &&& forall|j: int|
        0 <= j < COLUMN_COUNT ==> column_bytes(rows, j) + cell_bytes(#[trigger] record[j]) <= limit
}

/// A column of text takes the bytes that its items take.
pub proof fn lemma_text_bytes(items: Seq<Option<Seq<char>>>)
    ensures
        cells_bytes(items.map_values(|v: Option<Seq<char>>| text_cell(v))) == text_bytes(items),
    decreases items.len(),
{
    if items.len() > 0 {
        lemma_text_bytes(items.drop_last());
        assert(items.map_values(|v: Option<Seq<char>>| text_cell(v)).drop_last()
            =~= items.drop_last().map_values(|v: Option<Seq<char>>| text_cell(v)));
    }
}

/// The growable column of one column of the schema.
enum ColumnBuilder {
    Text(TextBuilder),
    Integer(IntegerBuilder),
}

impl ColumnBuilder {
    /// The type of the column's values.
    spec fn column_type(self) -> ColumnType {
        match self {
            ColumnBuilder::Text(_) => ColumnType::Text,
            ColumnBuilder::Integer(_) => ColumnType::Integer,
        }
    }

    /// The values that the column holds, in order.
    spec fn cells(self) -> Seq<CellValue> {
        match self {
            ColumnBuilder::Text(b) => text_builder_items(b).map_values(
                |v: Option<Seq<char>>| text_cell(v),
            ),
            ColumnBuilder::Integer(b) => integer_builder_items(b).map_values(
                |v: Option<i32>| integer_cell(v),
            ),
        }
    }
}

/// The columnar table builder.
///
/// A frame holds one column for every column of the schema, all of one
/// length. Its view is the sequence of its rows, which are the records that
/// were appended to it, in the order in which they came.
pub struct ArrowDataFrame {
    columns: Vec<ColumnBuilder>,
    rows: usize,
    loads: Vec<usize>,
    limit: usize,
}

impl View for ArrowDataFrame {
    type V = Seq<Seq<CellValue>>;

    closed spec fn view(&self) -> Seq<Seq<CellValue>> {
        rows_of(self.columns@.map_values(|c: ColumnBuilder| c.cells()))
    }
}

impl ArrowDataFrame {
    /// Whether the frame is well formed: it has the columns of the schema,
    /// each of its type and all of one length, every row is a record, and the
    /// text of every column is counted and within the limit.
    pub closed spec fn wf(&self) -> bool {
        &&& self.columns@.len() == COLUMN_COUNT
        &&& self.loads@.len() == COLUMN_COUNT
        &&& forall|j: int|
            0 <= j < COLUMN_COUNT ==> (#[trigger] self.columns@[j]).column_type() == rule_at(
                j,
            ).column_type()
        &&& forall|j: int|
            0 <= j < COLUMN_COUNT ==> (#[trigger] self.columns@[j]).cells().len() == self.rows
        &&& forall|j: int|
            0 <= j < COLUMN_COUNT ==> #[trigger] self.loads@[j] == cells_bytes(
                self.columns@[j].cells(),
            ) && self.loads@[j] <= self.limit
        &&& forall|i: int| 0 <= i < self.rows ==> conforms(#[trigger] self@[i])
        &&& self.limit <= TEXT_LIMIT
    }

    /// The bytes of text that each column of the frame may hold.
    pub closed spec fn text_limit(&self) -> nat {
        self.limit as nat
    }

    /// The columns of the frame's view are the columns that the frame holds.
    proof fn lemma_columns(&self)
        requires
            self.columns@.len() == COLUMN_COUNT,
            forall|j: int|
                0 <= j < COLUMN_COUNT ==> (#[trigger] self.columns@[j]).cells().len() == self.rows,
        ensures
            self@.len() == self.rows,
            forall|j: int|
                0 <= j < COLUMN_COUNT ==> #[trigger] column_of(self@, j) == self.columns@[j].cells(),
    {
        let cols = self.columns@.map_values(|c: ColumnBuilder| c.cells());
        assert(cols[0] == self.columns@[0].cells());
        assert forall|j: int| 0 <= j < COLUMN_COUNT implies #[trigger] column_of(self@, j)
            == self.columns@[j].cells() by {
            assert(cols[j] == self.columns@[j].cells());
            assert(column_of(self@, j) =~= self.columns@[j].cells());
        }
    }

    /// A well-formed frame has as many rows as it counts, and every row holds
    /// a fit value for every column.
    pub proof fn lemma_rows(&self)
        requires
            self.wf(),
        ensures
            self@.len() <= usize::MAX,
            forall|i: int| 0 <= i < self@.len() ==> conforms(#[trigger] self@[i]),
    {
        self.lemma_columns();
    }

    /// The text of every column of a well-formed frame is within the frame's
    /// limit, which is at most what one text column can hold.
    pub proof fn lemma_load(&self)
        requires
            self.wf(),
        ensures
            within(self@, self.text_limit()),
            self.text_limit() <= TEXT_LIMIT,
    {
        self.lemma_columns();
        assert forall|j: int| 0 <= j < COLUMN_COUNT implies #[trigger] column_bytes(self@, j)
            <= self.text_limit() by {
            assert(self.loads@[j] == cells_bytes(self.columns@[j].cells()));
        }
    }

    /// A frame with the columns of the schema and no rows, each column of
    /// which may hold as much text as a text column can.
    pub fn new() -> (frame: ArrowDataFrame)
        ensures
            frame.wf(),
            frame@ == Seq::<Seq<CellValue>>::empty(),
            frame.text_limit() == TEXT_LIMIT,
    {
        ArrowDataFrame::with_text_limit(TEXT_LIMIT)
    }

    /// A frame with the columns of the schema and no rows, each column of
    /// which may hold `limit` bytes of text, or as much as a text column can
    /// if that is less.
    pub fn with_text_limit(limit: usize) -> (frame: ArrowDataFrame)
        ensures
            frame.wf(),
            frame@ == Seq::<Seq<CellValue>>::empty(),
            frame.text_limit() == if limit <= TEXT_LIMIT {
                limit
            } else {
                TEXT_LIMIT
            },
    {
        let limit = if limit <= TEXT_LIMIT {
            limit
        } else {
            TEXT_LIMIT
        };
        let mut columns: Vec<ColumnBuilder> = Vec::new();
        let mut loads: Vec<usize> = Vec::new();
        let mut j: usize = 0;
        while j < COLUMN_COUNT
            invariant
                j <= COLUMN_COUNT,
                columns@.len() == j,
                loads@.len() == j,
                forall|k: int|
                    0 <= k < j ==> (#[trigger] columns@[k]).column_type() == rule_at(
                        k,
                    ).column_type(),
                forall|k: int| 0 <= k < j ==> (#[trigger] columns@[k]).cells().len() == 0,
                forall|k: int| 0 <= k < j ==> #[trigger] loads@[k] == 0,
            decreases COLUMN_COUNT - j,
        {
            let column = match SCHEMA[j].1.value_type() {
                ColumnType::Text => ColumnBuilder::Text(TextBuilder::new()),
                ColumnType::Integer => ColumnBuilder::Integer(IntegerBuilder::new()),
            };
            columns.push(column);
            loads.push(0);
            j = j + 1;
        }
        let frame = ArrowDataFrame { columns, rows: 0, loads, limit };
        proof {
            frame.lemma_columns();
            assert(frame@ =~= Seq::<Seq<CellValue>>::empty());
        }
        frame
    }

    /// Appends one record as a new last row: one value to every column, or,
    /// where the frame has no room for the record, nothing to any.
    pub fn append_row(&mut self, record: &Record) -> (r: Result<(), FrameError>)
        requires
            old(self).wf(),
            record.wf(),
        ensures
            final(self).wf(),
            final(self).text_limit() == old(self).text_limit(),
            r is Ok <==> has_room(old(self)@, old(self).text_limit(), record@),
            match r {
                Ok(_) => final(self)@ == old(self)@.push(record@),
                Err(e) => e == FrameError::Full && final(self)@ == old(self)@,
            },
    {
        proof {
            self.lemma_columns();
        }
        if self.rows == usize::MAX {
            return Err(FrameError::Full);
        }
        let mut j: usize = 0;
        while j < COLUMN_COUNT
            invariant
                j <= COLUMN_COUNT,
                record.wf(),
                self.wf(),
                forall|k: int|
                    0 <= k < j ==> self.loads@[k] + cell_bytes(#[trigger] record@[k]) <= self.limit,
            decreases COLUMN_COUNT - j,
        {
            let size = match record.text(j) {
                Some(s) => s.as_bytes().len(),
                None => 0,
            };
            assert(size == cell_bytes(record@[j as int]));
            if size > self.limit - self.loads[j] {
                proof {
                    self.lemma_columns();
                    assert(column_bytes(self@, j as int) + cell_bytes(record@[j as int])
                        > self.limit);
                }
                return Err(FrameError::Full);
            }
            j = j + 1;
        }
        let ghost before = self.columns@;
        let ghost loads_before = self.loads@;
        let ghost rows_before = self@;
        let mut j: usize = 0;
        while j < COLUMN_COUNT
            invariant
                j <= COLUMN_COUNT,
                record.wf(),
                old(self).wf(),
                self.limit == old(self).limit,
                self.rows == old(self).rows,
                before == old(self).columns@,
                loads_before == old(self).loads@,
                self.columns@.len() == COLUMN_COUNT,
                self.loads@.len() == COLUMN_COUNT,
                forall|k: int|
                    0 <= k < COLUMN_COUNT ==> loads_before[k] + cell_bytes(#[trigger] record@[k])
                        <= self.limit,
                forall|k: int|
                    0 <= k < COLUMN_COUNT ==> (#[trigger] self.columns@[k]).column_type()
                        == before[k].column_type(),
                forall|k: int|
                    0 <= k < j ==> (#[trigger] self.columns@[k]).cells() == before[k].cells().push(
                        record@[k],
                    ),
                forall|k: int|
                    0 <= k < j ==> #[trigger] self.loads@[k] == cells_bytes(
                        self.columns@[k].cells(),
                    ) && self.loads@[k] <= self.limit,
                forall|k: int| j <= k < COLUMN_COUNT ==> (#[trigger] self.columns@[k]) == before[k],
                forall|k: int| j <= k < COLUMN_COUNT ==> #[trigger] self.loads@[k] == loads_before[k],
            decreases COLUMN_COUNT - j,
        {
            let text = record.text(j);
            let number = record.number(j);
            let size = match text {
                Some(s) => s.as_bytes().len(),
                None => 0,
            };
            proof {
                assert(cell_fits(rule_at(j as int), record@[j as int]));
                assert(before[j as int].cells().push(record@[j as int]).drop_last()
                    =~= before[j as int].cells());
                match self.columns@[j as int] {
                    ColumnBuilder::Text(b) => {
                        let items = text_builder_items(b);
                        lemma_text_bytes(items);
                        lemma_text_bytes(items.push(text_item(text)));
                        assert(text_cell(text_item(text)) == record@[j as int]);
                        assert(items.push(text_item(text)).map_values(
                            |v: Option<Seq<char>>| text_cell(v),
                        ) =~= items.map_values(|v: Option<Seq<char>>| text_cell(v)).push(
                            record@[j as int],
                        ));
                    },
                    ColumnBuilder::Integer(b) => {
                        let items = integer_builder_items(b);
                        assert(integer_cell(number) == record@[j as int]);
                        assert(items.push(number).map_values(|v: Option<i32>| integer_cell(v))
                            =~= items.map_values(|v: Option<i32>| integer_cell(v)).push(
                            record@[j as int],
                        ));
                    },
                }
            }
            match &mut self.columns[j] {
                ColumnBuilder::Text(b) => {
                    b.append_option(text);
                },
                ColumnBuilder::Integer(b) => {
                    b.append_option(number);
                },
            }
            let load = self.loads[j] + size;
            self.loads.set(j, load);
            j = j + 1;
        }
        self.rows = self.rows + 1;
        proof {
            let cols_before = before.map_values(|c: ColumnBuilder| c.cells());
            let cols = self.columns@.map_values(|c: ColumnBuilder| c.cells());
            assert(cols_before[0] == before[0].cells());
            assert(cols[0] == self.columns@[0].cells());
            assert(self@.len() == rows_before.len() + 1);
            assert forall|i: int| 0 <= i < self@.len() implies #[trigger] self@[i]
                == rows_before.push(record@)[i] by {
                assert forall|k: int| 0 <= k < COLUMN_COUNT implies cols[k][i] == rows_before.push(
                    record@,
                )[i][k] by {
                    assert(cols[k] == self.columns@[k].cells());
                    assert(cols_before[k] == before[k].cells());
                }
                assert(self@[i] =~= rows_before.push(record@)[i]);
            }
            assert(self@ =~= rows_before.push(record@));
        }
        Ok(())
    }

    /// Closes the frame: the table of the rows that the frame holds. The
    /// frame is used up, so nothing can be appended afterwards.
    pub fn finalize(self) -> (table: Table)
        requires
            self.wf(),
        ensures
            table.wf(),
            table@ == self@,
    {
        let mut frame = self;
        let ghost before = frame.columns@;
        let mut arrays: Vec<ColumnArray> = Vec::new();
        let mut j: usize = 0;
        while j < COLUMN_COUNT
            invariant
                j <= COLUMN_COUNT,
                self.wf(),
                before == self.columns@,
                frame.rows == self.rows,
                frame.columns@.len() == COLUMN_COUNT,
                arrays@.len() == j,
                forall|k: int| j <= k < COLUMN_COUNT ==> (#[trigger] frame.columns@[k]) == before[k],
                forall|k: int|
                    0 <= k < j ==> (#[trigger] arrays@[k]).column_type() == before[k].column_type(),
                forall|k: int| 0 <= k < j ==> array_cells(#[trigger] arrays@[k]) == before[k].cells(),
            decreases COLUMN_COUNT - j,
        {
            let array = match &mut frame.columns[j] {
                ColumnBuilder::Text(b) => ColumnArray::Text(b.finish()),
                ColumnBuilder::Integer(b) => ColumnArray::Integer(b.finish()),
            };
            arrays.push(array);
            j = j + 1;
        }
        proof {
            let cols_before = before.map_values(|c: ColumnBuilder| c.cells());
            let cols = arrays@.map_values(|c: ColumnArray| array_cells(c));
            assert(cols =~= cols_before);
            assert(cols_before[0] == before[0].cells());
            assert(array_rows(arrays@) == self@);
            assert forall|k: int| 0 <= k < COLUMN_COUNT implies array_cells(#[trigger] arrays@[k]).len()
                == self.rows by {
                assert(before[k].cells().len() == self.rows);
            }
        }
        Table::from_columns(arrays, frame.rows)
    }

    /// The number of rows in the frame.
    pub fn row_count(&self) -> (n: usize)
        requires
            self.wf(),
        ensures
            n == self@.len(),
    {
        proof {
            assert(self.columns@.map_values(|c: ColumnBuilder| c.cells())[0]
                == self.columns@[0].cells());
        }
        self.rows
    }
}

} // verus!
