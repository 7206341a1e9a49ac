//! The columns of a data frame, held by Arrow.
//!
//! The functions of this file that call into the `arrow` crate are taken on
//! trust: each makes one call, and its contract says of that call what the
//! source of the crate shows. What a builder, an array or a record batch holds
//! is not visible to the verifier, so it has a name here, and the contracts
//! speak of that name.

use vstd::prelude::*;
use arrow::array::{ArrayRef, Int32Array, Int32Builder, StringArray, StringBuilder};
use arrow::error::ArrowError;
use arrow::record_batch::RecordBatch;
use std::sync::Arc;
use crate::schema::ColumnType;

verus! {

/// The most bytes of text that one text column can hold: Arrow addresses the
/// text of such a column by offsets of 32 bits.
pub const TEXT_LIMIT: usize = 0x7fff_ffff;

/// A growable column of text, some of it absent: Arrow's `StringBuilder`.
#[verifier::external_body]
pub struct TextBuilder {
    inner: StringBuilder,
}

/// A growable column of integers, some of them absent: Arrow's `Int32Builder`.
#[verifier::external_body]
pub struct IntegerBuilder {
    inner: Int32Builder,
}

/// A finished column of text: Arrow's `StringArray`.
#[verifier::external_body]
pub struct TextArray {
    inner: StringArray,
}

/// A finished column of integers: Arrow's `Int32Array`.
#[verifier::external_body]
pub struct IntegerArray {
    inner: Int32Array,
}

/// Columns of equal length under a schema: Arrow's `RecordBatch`. The field
/// is public, for this is what a consumer of Arrow data takes.
#[verifier::external_body]
pub struct Batch {
    pub inner: RecordBatch,
}

/// Arrow's error type.
#[verifier::external_type_specification]
#[verifier::external_body]
pub struct ExArrowError(ArrowError);

/// A finished column of either type.
pub enum ColumnArray {
    Text(TextArray),
    Integer(IntegerArray),
}

/// What a text builder holds: the items appended since it was made or last
/// finished, in order, an absent item as `None`.
pub uninterp spec fn text_builder_items(b: TextBuilder) -> Seq<Option<Seq<char>>>;

/// What an integer builder holds, in the same way.
pub uninterp spec fn integer_builder_items(b: IntegerBuilder) -> Seq<Option<i32>>;

/// The items of a text array in order, a null slot as `None`.
pub uninterp spec fn text_array_items(a: TextArray) -> Seq<Option<Seq<char>>>;

/// The items of an integer array in order, a null slot as `None`.
pub uninterp spec fn integer_array_items(a: IntegerArray) -> Seq<Option<i32>>;

/// The names of the fields of a record batch's schema, in order.
pub uninterp spec fn record_batch_names(b: Batch) -> Seq<Seq<char>>;

/// For each field of a record batch's schema, whether it is declared nullable.
pub uninterp spec fn record_batch_nullable(b: Batch) -> Seq<bool>;

/// For each column of a record batch, its items if it is a column of text.
pub uninterp spec fn record_batch_text(b: Batch) -> Seq<Option<Seq<Option<Seq<char>>>>>;

/// For each column of a record batch, its items if it is a column of 32-bit
/// integers.
pub uninterp spec fn record_batch_integers(b: Batch) -> Seq<Option<Seq<Option<i32>>>>;

/// The bytes that the text of `items` takes in UTF-8.
pub open spec fn text_bytes(items: Seq<Option<Seq<char>>>) -> nat
    decreases items.len(),
{
    if items.len() == 0 {
        0
    } else {
        text_bytes(items.drop_last()) + match items.last() {
            Some(s) => vstd::utf8::encode_utf8(s).len(),
            None => 0,
        }
    }
}

/// An optional piece of text as a mathematical value.
pub open spec fn text_item(value: Option<&str>) -> Option<Seq<char>> {
    match value {
        Some(s) => Some(s@),
        None => None,
    }
}

/// An optional string as a mathematical value.
pub open spec fn string_item(value: Option<String>) -> Option<Seq<char>> {
    match value {
        Some(s) => Some(s@),
        None => None,
    }
}

impl ColumnArray {
    /// The type of the column's values.
    pub open spec fn column_type(self) -> ColumnType {
        match self {
            ColumnArray::Text(_) => ColumnType::Text,
            ColumnArray::Integer(_) => ColumnType::Integer,
        }
    }

    /// The number of items in the column.
    pub open spec fn len(self) -> nat {
        match self {
            ColumnArray::Text(a) => text_array_items(a).len(),
            ColumnArray::Integer(a) => integer_array_items(a).len(),
        }
    }

    /// Whether an item of the column is absent.
    pub open spec fn has_null(self) -> bool {
        match self {
            ColumnArray::Text(a) => exists|i: int|
                0 <= i < text_array_items(a).len() && #[trigger] text_array_items(a)[i] is None,
            ColumnArray::Integer(a) => exists|i: int|
                0 <= i < integer_array_items(a).len() && #[trigger] integer_array_items(a)[i] is None,
        }
    }

    /// The items of the column if it is a column of text.
    pub open spec fn text(self) -> Option<Seq<Option<Seq<char>>>> {
        match self {
            ColumnArray::Text(a) => Some(text_array_items(a)),
            ColumnArray::Integer(_) => None,
        }
    }

    /// The items of the column if it is a column of integers.
    pub open spec fn integers(self) -> Option<Seq<Option<i32>>> {
        match self {
            ColumnArray::Text(_) => None,
            ColumnArray::Integer(a) => Some(integer_array_items(a)),
        }
    }
}

/// Whether Arrow accepts `columns` under `fields` as a record batch: there is
/// a column, the columns are as long as the first one, and a column whose
/// field is not nullable holds no absent item.
pub open spec fn batch_ready(
    fields: Seq<(&'static str, ColumnType, bool)>,
    columns: Seq<ColumnArray>,
) -> bool {
    &&& columns.len() > 0
    &&& forall|j: int| 0 <= j < columns.len() ==> (#[trigger] columns[j]).len() == columns[0].len()
    &&& forall|j: int|
        0 <= j < columns.len() && !fields[j].2 ==> !(#[trigger] columns[j]).has_null()
}

impl TextBuilder {
    /// `StringBuilder::new`: a builder that holds nothing.
    #[verifier::external_body]
    pub(crate) fn new() -> (b: TextBuilder)
        ensures
            text_builder_items(b) == Seq::<Option<Seq<char>>>::empty(),
    {
        TextBuilder { inner: StringBuilder::new() }
    }

    /// `StringBuilder::append_option`: appends one item, absent for `None`.
    /// Arrow panics when the text of the column outgrows its offsets, so the
    /// caller keeps the bytes within the limit.
    #[verifier::external_body]
    pub(crate) fn append_option(&mut self, value: Option<&str>)
        requires
            text_bytes(text_builder_items(*old(self)).push(text_item(value))) <= TEXT_LIMIT,
        ensures
            text_builder_items(*final(self)) == text_builder_items(*old(self)).push(
                text_item(value),
            ),
    {
        self.inner.append_option(value)
    }

    /// `StringBuilder::finish`: hands out what the builder holds as an array
    /// and leaves the builder empty.
    #[verifier::external_body]
    pub(crate) fn finish(&mut self) -> (a: TextArray)
        ensures
            text_array_items(a) == text_builder_items(*old(self)),
            text_builder_items(*final(self)) == Seq::<Option<Seq<char>>>::empty(),
    {
        TextArray { inner: self.inner.finish() }
    }
}

impl IntegerBuilder {
    /// `Int32Builder::new`: a builder that holds nothing.
    #[verifier::external_body]
    pub(crate) fn new() -> (b: IntegerBuilder)
        ensures
            integer_builder_items(b) == Seq::<Option<i32>>::empty(),
    {
        IntegerBuilder { inner: Int32Builder::new() }
    }

    /// `Int32Builder::append_option`: appends one item, absent for `None`.
    #[verifier::external_body]
    pub(crate) fn append_option(&mut self, value: Option<i32>)
        ensures
            integer_builder_items(*final(self)) == integer_builder_items(*old(self)).push(value),
    {
        self.inner.append_option(value)
    }

    /// `Int32Builder::finish`: hands out what the builder holds as an array
    /// and leaves the builder empty.
    #[verifier::external_body]
    pub(crate) fn finish(&mut self) -> (a: IntegerArray)
        ensures
            integer_array_items(a) == integer_builder_items(*old(self)),
            integer_builder_items(*final(self)) == Seq::<Option<i32>>::empty(),
    {
        IntegerArray { inner: self.inner.finish() }
    }
}

impl TextArray {
    /// `StringArray::iter`: the items of the array in order, each copied into
    /// a string of its own.
    #[verifier::external_body]
    pub(crate) fn values(&self) -> (out: Vec<Option<String>>)
        ensures
            out@.map_values(|v: Option<String>| string_item(v)) == text_array_items(*self),
    {
        self.inner.iter().map(|item| item.map(String::from)).collect()
    }
}

impl IntegerArray {
    /// `Int32Array::iter`: the items of the array in order.
    #[verifier::external_body]
    pub(crate) fn values(&self) -> (out: Vec<Option<i32>>)
        ensures
            out@ == integer_array_items(*self),
    {
        self.inner.iter().collect()
    }
}

/// `RecordBatch::try_from_iter_with_nullable`: a record batch of the given
/// columns, each under a field with the given name and nullability and with
/// the type of its column. Arrow refuses the columns unless they are ready,
/// and keeps them as they are.
#[verifier::external_body]
pub(crate) fn record_batch_of(
    fields: &Vec<(&'static str, ColumnType, bool)>,
    columns: &Vec<ColumnArray>,
) -> (r: Result<Batch, ArrowError>)
    requires
        fields@.len() == columns@.len(),
    ensures
        r is Ok <==> batch_ready(fields@, columns@),
        r matches Ok(b) ==> {
            &&& record_batch_names(b) == fields@.map_values(|f: (&'static str, ColumnType, bool)| f.0@)
            &&& record_batch_nullable(b) == fields@.map_values(
                |f: (&'static str, ColumnType, bool)| f.2,
            )
            &&& record_batch_text(b) == columns@.map_values(|c: ColumnArray| c.text())
            &&& record_batch_integers(b) == columns@.map_values(|c: ColumnArray| c.integers())
        },
{
    let parts = fields.iter().zip(columns.iter()).map(
        |(field, column)|
            {
                let array: ArrayRef = match column {
                    ColumnArray::Text(a) => Arc::new(a.inner.clone()),
                    ColumnArray::Integer(a) => Arc::new(a.inner.clone()),
                };
                (field.0, array, field.2)
            },
    );
    match RecordBatch::try_from_iter_with_nullable(parts) {
        Ok(inner) => Ok(Batch { inner }),
        Err(e) => Err(e),
    }
}

} // verus!
