//! From records, and from lines, to a table.

use vstd::prelude::*;
use crate::column::TEXT_LIMIT;
use crate::decoder::{decoded_lines, parse_adeck_lines, texts_of, views_of};
use crate::schema::COLUMN_COUNT;
use crate::frame::{column_bytes, within, ArrowDataFrame, FrameError};
use crate::record::{cell_bytes, lemma_cells_bytes_grow, CellValue, Record};
use crate::table::{column_of, Table};

verus! {

/// A column of the first `k + 1` rows takes the bytes of that column of the
/// first `k` rows and those of its value in row `k`, and no more than the
/// column of all the rows.
pub proof fn lemma_column_bytes_step(rows: Seq<Seq<CellValue>>, k: int, j: int)
    requires
        0 <= k < rows.len(),
    ensures
        column_bytes(rows.take(k + 1), j) == column_bytes(rows.take(k), j) + cell_bytes(rows[k][j]),
        column_bytes(rows.take(k + 1), j) <= column_bytes(rows, j),
{
    let shorter = column_of(rows.take(k), j);
    assert(column_of(rows.take(k + 1), j) =~= shorter.push(rows[k][j]));
    assert(shorter.push(rows[k][j]).drop_last() =~= shorter);
    assert(column_of(rows, j).take(k + 1) =~= column_of(rows.take(k + 1), j));
    lemma_cells_bytes_grow(column_of(rows, j), k + 1);
}

/// The rows of a frame that held `rows` and then took `records` one by one.
pub open spec fn appended(rows: Seq<Seq<CellValue>>, records: Seq<Seq<CellValue>>) -> Seq<
    Seq<CellValue>,
>
    decreases records.len(),
{
    if records.len() == 0 {
        rows
    } else {
        appended(rows, records.drop_last()).push(records.last())
    }
}

/// A frame that was empty and took `records` one by one holds them as its
/// rows, in the order in which it took them.
pub proof fn lemma_rows_in_order(records: Seq<Seq<CellValue>>)
    ensures
        appended(Seq::empty(), records) == records,
    decreases records.len(),
{
    if records.len() > 0 {
        lemma_rows_in_order(records.drop_last());
        assert(records.drop_last().push(records.last()) =~= records);
    }
}

/// A frame that was empty and took `n` records has `n` rows, and every one of
/// its columns has `n` values: the value at place `i` of column `j` is that
/// of record `i` for column `j`.
pub proof fn lemma_rows_counted(records: Seq<Seq<CellValue>>, j: int)
    ensures
        appended(Seq::empty(), records).len() == records.len(),
        column_of(appended(Seq::empty(), records), j).len() == records.len(),
        forall|i: int|
            0 <= i < records.len() ==> column_of(appended(Seq::empty(), records), j)[i]
                == #[trigger] records[i][j],
{
    lemma_rows_in_order(records);
}

/// The table of the given records: one row per record, in the order of the
/// records. There is no table where the text of one column is more than a
/// text column can hold.
pub fn table_of(records: &Vec<Record>) -> (r: Result<Table, FrameError>)
    requires
        forall|i: int| 0 <= i < records@.len() ==> (#[trigger] records@[i]).wf(),
    ensures
        r is Ok <==> within(views_of(records@), TEXT_LIMIT as nat),
        r matches Ok(table) ==> table.wf() && table@ == views_of(records@),
        r matches Err(e) ==> e == FrameError::Full,
{
    let ghost rows = views_of(records@);
    let mut frame = ArrowDataFrame::new();
    let mut i: usize = 0;
    proof {
        assert(rows.take(0) =~= Seq::<Seq<CellValue>>::empty());
    }
    while i < records.len()
        invariant
            i <= records@.len(),
            rows == views_of(records@),
            forall|k: int| 0 <= k < records@.len() ==> (#[trigger] records@[k]).wf(),
            frame.wf(),
            frame.text_limit() == TEXT_LIMIT,
            frame@ == rows.take(i as int),
        decreases records@.len() - i,
    {
        proof {
            frame.lemma_load();
            assert(rows.take(i + 1) =~= rows.take(i as int).push(records@[i as int]@));
            assert forall|j: int| 0 <= j < COLUMN_COUNT implies #[trigger] column_bytes(
                rows.take(i as int),
                j,
            ) + cell_bytes(rows[i as int][j]) <= column_bytes(rows, j) by {
                lemma_column_bytes_step(rows, i as int, j);
            }
        }
        match frame.append_row(&records[i]) {
            Ok(_) => {},
            Err(e) => {
                return Err(e);
            },
        }
        i = i + 1;
    }
    proof {
        assert(rows.take(i as int) =~= rows);
        frame.lemma_load();
    }
    Ok(frame.finalize())
}

/// The table of the records that the given lines decode to: one row per
/// accepted line, in the order of the lines.
pub fn parse_adeck(lines: &Vec<String>) -> (r: Result<Table, FrameError>)
    ensures
        r is Ok <==> within(decoded_lines(texts_of(lines@)), TEXT_LIMIT as nat),
        r matches Ok(table) ==> table.wf() && table@ == decoded_lines(texts_of(lines@)),
        r matches Err(e) ==> e == FrameError::Full,
{
    let records = parse_adeck_lines(lines);
    table_of(&records)
}

} // verus!
