//! The finished table: the columns of the schema, all of one length, read
//! but never changed.

use vstd::prelude::*;
use crate::column::{
    batch_ready, integer_array_items, record_batch_integers, record_batch_names,
    record_batch_nullable, record_batch_of, record_batch_text, string_item, text_array_items, Batch,
    ColumnArray,
};
use crate::record::{cell_fits, conforms, CellValue};
use crate::schema::{
    column_index, is_column_name, name_at, rule_at, schema, ColumnType, COLUMN_COUNT,
};

verus! {

/// The value that an item of a text column stands for.
pub open spec fn text_cell(item: Option<Seq<char>>) -> CellValue {
    match item {
        Some(s) => CellValue::Text(s),
        None => CellValue::Null,
    }
}

/// The value that an item of an integer column stands for.
pub open spec fn integer_cell(item: Option<i32>) -> CellValue {
    match item {
        Some(n) => CellValue::Integer(n as int),
        None => CellValue::Null,
    }
}

/// The rows of a table that is given by its columns: row `i` holds item `i` of
/// every column, in the order of the columns.
pub open spec fn rows_of(columns: Seq<Seq<CellValue>>) -> Seq<Seq<CellValue>> {
    if columns.len() == 0 {
        Seq::empty()
    } else {
        Seq::new(columns[0].len(), |i: int| Seq::new(columns.len(), |j: int| columns[j][i]))
    }
}

/// Column `j` of a table that is given by its rows.
pub open spec fn column_of(rows: Seq<Seq<CellValue>>, j: int) -> Seq<CellValue> {
    Seq::new(rows.len(), |i: int| rows[i][j])
}

/// The values of one column of a table, in the order of the rows.
#[derive(Clone, Debug, PartialEq, Eq)]
pub enum Column {
    Text(Vec<Option<String>>),
    Integer(Vec<Option<i32>>),
}

impl View for Column {
    type V = Seq<CellValue>;

    open spec fn view(&self) -> Seq<CellValue> {
        match self {
            Column::Text(values) => values@.map_values(
                |v: Option<String>| text_cell(string_item(v)),
            ),
            Column::Integer(values) => values@.map_values(|v: Option<i32>| integer_cell(v)),
        }
    }
}

impl Column {
    /// The type of the column's values.
    pub open spec fn column_type(self) -> ColumnType {
        match self {
            Column::Text(_) => ColumnType::Text,
            Column::Integer(_) => ColumnType::Integer,
        }
    }
}

/// The values that a finished column holds, in order.
pub open spec fn array_cells(column: ColumnArray) -> Seq<CellValue> {
    match column {
        ColumnArray::Text(a) => text_array_items(a).map_values(|v: Option<Seq<char>>| text_cell(v)),
        ColumnArray::Integer(a) => integer_array_items(a).map_values(
            |v: Option<i32>| integer_cell(v),
        ),
    }
}

/// The rows that finished columns hold.
pub open spec fn array_rows(columns: Seq<ColumnArray>) -> Seq<Seq<CellValue>> {
    rows_of(columns.map_values(|c: ColumnArray| array_cells(c)))
}

/// Whether `columns` are the columns of a table of `rows` rows: the columns
/// of the schema, each of its type and all of that length, every row a record.
pub open spec fn table_columns(columns: Seq<ColumnArray>, rows: nat) -> bool {
    &&& columns.len() == COLUMN_COUNT
    &&& forall|j: int|
        0 <= j < COLUMN_COUNT ==> (#[trigger] columns[j]).column_type() == rule_at(j).column_type()
    &&& forall|j: int| 0 <= j < COLUMN_COUNT ==> array_cells(#[trigger] columns[j]).len() == rows
    &&& forall|i: int| 0 <= i < rows ==> conforms(#[trigger] array_rows(columns)[i])
}

/// The values of column `j` of a record batch, in the order of the rows.
pub open spec fn batch_column(b: Batch, j: int) -> Seq<CellValue> {
    match record_batch_text(b)[j] {
        Some(items) => items.map_values(|v: Option<Seq<char>>| text_cell(v)),
        None => match record_batch_integers(b)[j] {
            Some(items) => items.map_values(|v: Option<i32>| integer_cell(v)),
            None => Seq::empty(),
        },
    }
}

/// The rows of a record batch.
pub open spec fn batch_rows(b: Batch) -> Seq<Seq<CellValue>> {
    rows_of(Seq::new(record_batch_text(b).len(), |j: int| batch_column(b, j)))
}

/// The finalized table: one row per record that its frame took, in the order
/// in which the frame took them. Its view is the sequence of those rows.
pub struct Table {
    columns: Vec<ColumnArray>,
    rows: usize,
}

impl View for Table {
    type V = Seq<Seq<CellValue>>;

    closed spec fn view(&self) -> Seq<Seq<CellValue>> {
        array_rows(self.columns@)
    }
}

impl Table {
    /// Whether the table is well formed: it has the columns of the schema,
    /// each of its type and all of one length, and every row is a record.
    pub closed spec fn wf(&self) -> bool {
        table_columns(self.columns@, self.rows as nat)
    }

    /// Every row of a well-formed table holds a fit value for every column.
    pub proof fn lemma_rows(&self)
        requires
            self.wf(),
        ensures
            self@.len() <= usize::MAX,
            forall|i: int| 0 <= i < self@.len() ==> conforms(#[trigger] self@[i]),
    {
        assert(self.columns@.map_values(|c: ColumnArray| array_cells(c))[0] == array_cells(
            self.columns@[0],
        ));
    }

    /// The table of the given columns.
    pub(crate) fn from_columns(columns: Vec<ColumnArray>, rows: usize) -> (table: Table)
        requires
            table_columns(columns@, rows as nat),
        ensures
            table.wf(),
            table@ == array_rows(columns@),
    {
        Table { columns, rows }
    }

    /// The number of rows.
    pub fn row_count(&self) -> (n: usize)
        requires
            self.wf(),
        ensures
            n == self@.len(),
    {
        proof {
            assert(self.columns@.map_values(|c: ColumnArray| array_cells(c))[0] == array_cells(
                self.columns@[0],
            ));
        }
        self.rows
    }

    /// The columns of the table in order, each with its name, the type of its
    /// values, and whether a value may be absent.
    pub fn schema(&self) -> (columns: Vec<(&'static str, ColumnType, bool)>)
        ensures
            columns@.len() == COLUMN_COUNT,
            forall|j: int|
                #![trigger columns@[j]]
                0 <= j < COLUMN_COUNT ==> columns@[j].0@ == name_at(j) && columns@[j].1 == rule_at(
                    j,
                ).column_type() && columns@[j].2 == rule_at(j).nullable(),
    {
        schema()
    }

    /// The values of column `j`, in the order of the rows, if the schema has
    /// a column there.
    pub fn column_at(&self, j: usize) -> (r: Option<Column>)
        requires
            self.wf(),
        ensures
            r is Some <==> j < COLUMN_COUNT,
            r matches Some(column) ==> {
                &&& column@ == column_of(self@, j as int)
                &&& column@.len() == self@.len()
                &&& column.column_type() == rule_at(j as int).column_type()
            },
    {
        if j >= COLUMN_COUNT {
            return None;
        }
        let ghost cols = self.columns@.map_values(|c: ColumnArray| array_cells(c));
        proof {
            assert(cols[0] == array_cells(self.columns@[0]));
            assert(cols[j as int] == array_cells(self.columns@[j as int]));
            assert(column_of(self@, j as int) =~= cols[j as int]);
        }
        match &self.columns[j] {
            ColumnArray::Text(a) => {
                let values = a.values();
                proof {
                    let items = text_array_items(*a);
                    assert(values@.map_values(|v: Option<String>| string_item(v)) == items);
                    assert forall|i: int| 0 <= i < values@.len() implies text_cell(
                        string_item(#[trigger] values@[i]),
                    ) == text_cell(items[i]) by {
                        assert(values@.map_values(|v: Option<String>| string_item(v))[i]
                            == string_item(values@[i]));
                    }
                    assert(Column::Text(values)@ =~= cols[j as int]);
                }
                Some(Column::Text(values))
            },
            ColumnArray::Integer(a) => {
                let values = a.values();
                Some(Column::Integer(values))
            },
        }
    }

    /// The values of the column with the given name, if the schema has a
    /// column of that name.
    pub fn column(&self, name: &str) -> (r: Option<Column>)
        requires
            self.wf(),
        ensures
            r is Some <==> is_column_name(name@),
            forall|j: int|
                0 <= j < COLUMN_COUNT && #[trigger] name_at(j) == name@ ==> r is Some
                    && r.unwrap()@ == column_of(self@, j) && r.unwrap().column_type() == rule_at(
                    j,
                ).column_type(),
    {
        match column_index(name) {
            Some(j) => self.column_at(j),
            None => None,
        }
    }

    /// The table as an Arrow record batch: under the names of the schema, with
    /// the nullability and the types of the schema, the rows of the table.
    pub fn to_record_batch(&self) -> (batch: Batch)
        requires
            self.wf(),
        ensures
            batch_rows(batch) == self@,
            record_batch_names(batch) == Seq::new(COLUMN_COUNT as nat, |j: int| name_at(j)),
            record_batch_nullable(batch) == Seq::new(
                COLUMN_COUNT as nat,
                |j: int| rule_at(j).nullable(),
            ),
            record_batch_text(batch).len() == COLUMN_COUNT,
            record_batch_integers(batch).len() == COLUMN_COUNT,
            forall|j: int|
                0 <= j < COLUMN_COUNT ==> ((#[trigger] record_batch_text(batch)[j]) is Some
                    <==> rule_at(j).column_type() == ColumnType::Text),
            forall|j: int|
                0 <= j < COLUMN_COUNT ==> ((#[trigger] record_batch_integers(batch)[j]) is Some
                    <==> rule_at(j).column_type() == ColumnType::Integer),
    {
        let fields = schema();
        proof {
            let cols = self.columns@.map_values(|c: ColumnArray| array_cells(c));
            assert(cols[0] == array_cells(self.columns@[0]));
            assert forall|j: int|
                0 <= j < COLUMN_COUNT && !fields@[j].2 implies !(#[trigger] self.columns@[j]).has_null() by {
                assert(cols[j] == array_cells(self.columns@[j]));
                assert forall|i: int| 0 <= i < self.rows implies array_cells(self.columns@[j])[i]
                    != CellValue::Null by {
                    assert(conforms(array_rows(self.columns@)[i]));
                    assert(array_rows(self.columns@)[i][j] == cols[j][i]);
                    assert(cell_fits(rule_at(j), array_rows(self.columns@)[i][j]));
                }
                match self.columns@[j] {
                    ColumnArray::Text(a) => {
                        assert forall|i: int| 0 <= i < text_array_items(a).len() implies !(
                        #[trigger] text_array_items(a)[i] is None) by {
                            assert(array_cells(self.columns@[j])[i] == text_cell(
                                text_array_items(a)[i],
                            ));
                        }
                    },
                    ColumnArray::Integer(a) => {
                        assert forall|i: int| 0 <= i < integer_array_items(a).len() implies !(
                        #[trigger] integer_array_items(a)[i] is None) by {
                            assert(array_cells(self.columns@[j])[i] == integer_cell(
                                integer_array_items(a)[i],
                            ));
                        }
                    },
                }
            }
            assert forall|j: int| 0 <= j < COLUMN_COUNT implies (#[trigger] self.columns@[j]).len()
                == self.columns@[0].len() by {
                assert(array_cells(self.columns@[j]).len() == self.rows);
                assert(array_cells(self.columns@[0]).len() == self.rows);
            }
            assert(batch_ready(fields@, self.columns@));
        }
        let batch = record_batch_of(&fields, &self.columns).unwrap();
        proof {
            let cols = self.columns@.map_values(|c: ColumnArray| array_cells(c));
            let from_batch = Seq::new(
                record_batch_text(batch).len(),
                |j: int| batch_column(batch, j),
            );
            assert forall|j: int| 0 <= j < COLUMN_COUNT implies #[trigger] from_batch[j]
                == cols[j] by {
                assert(record_batch_text(batch)[j] == self.columns@[j].text());
                assert(record_batch_integers(batch)[j] == self.columns@[j].integers());
            }
            assert(from_batch =~= cols);
            assert(record_batch_names(batch) =~= Seq::new(
                COLUMN_COUNT as nat,
                |j: int| name_at(j),
            ));
            assert(record_batch_nullable(batch) =~= Seq::new(
                COLUMN_COUNT as nat,
                |j: int| rule_at(j).nullable(),
            ));
        }
        batch
    }
}

} // verus!
