//! Records: one decoded line each, a value for every column of the schema.

use vstd::prelude::*;
use crate::coordinate::COORDINATE_LIMIT;
use crate::schema::{
    rule_at, Rule, BASIN, COLUMN_COUNT, FORECAST_HOUR, INIT_TIME, LATITUDE, LONGITUDE,
    MODEL, PRESSURE, SCHEMA, STORM_NUMBER, STORM_TYPE, TECH_NUM, WIND_SPEED,
};

verus! {

/// The value of one column in one record.
#[derive(Clone, Debug, PartialEq, Eq)]
pub enum Cell {
    Text(String),
    Integer(i32),
    Null,
}

/// What a cell holds, as a mathematical value.
pub enum CellValue {
    Text(Seq<char>),
    Integer(int),
    Null,
}

impl View for Cell {
    type V = CellValue;

    open spec fn view(&self) -> CellValue {
        match self {
            Cell::Text(s) => CellValue::Text(s@),
            Cell::Integer(v) => CellValue::Integer(*v as int),
            Cell::Null => CellValue::Null,
        }
    }
}

/// Whether `value` is one that `rule` can give.
pub open spec fn cell_fits(rule: Rule, value: CellValue) -> bool {
    match rule {
        Rule::Text => value is Text,
        Rule::Byte => value matches CellValue::Integer(n) && 0 <= n <= 255,
        Rule::Hour => value matches CellValue::Integer(n) && -32768 <= n <= 32767,
        Rule::Latitude | Rule::Longitude => value matches CellValue::Integer(n)
            && -COORDINATE_LIMIT <= n <= COORDINATE_LIMIT,
        Rule::OptionalNumber => value is Null || (value matches CellValue::Integer(n) && 0 <= n
            <= 65535),
        Rule::OptionalText => value is Null || (value matches CellValue::Text(s) && s.len() > 0),
    }
}

/// Whether `cells` holds one value for every column, each fit for its rule.
pub open spec fn conforms(cells: Seq<CellValue>) -> bool {
    &&& cells.len() == COLUMN_COUNT
    &&& forall|j: int| 0 <= j < COLUMN_COUNT ==> cell_fits(rule_at(j), #[trigger] cells[j])
}

/// The values of a sequence of cells.
pub open spec fn values_of(cells: Seq<Cell>) -> Seq<CellValue> {
    cells.map_values(|c: Cell| c@)
}

/// The bytes that the text of a value takes in UTF-8; none for a value that is
/// no text.
pub open spec fn cell_bytes(value: CellValue) -> nat {
    match value {
        CellValue::Text(s) => vstd::utf8::encode_utf8(s).len(),
        _ => 0,
    }
}

/// The bytes that the text of `cells` takes in UTF-8.
pub open spec fn cells_bytes(cells: Seq<CellValue>) -> nat
    decreases cells.len(),
{
    if cells.len() == 0 {
        0
    } else {
        cells_bytes(cells.drop_last()) + cell_bytes(cells.last())
    }
}

/// The bytes of the text of values never fall when values are added.
pub proof fn lemma_cells_bytes_grow(cells: Seq<CellValue>, k: int)
    requires
        0 <= k <= cells.len(),
    ensures
        cells_bytes(cells.take(k)) <= cells_bytes(cells),
    decreases cells.len(),
{
    if k < cells.len() {
        assert(cells.drop_last().take(k) =~= cells.take(k));
        lemma_cells_bytes_grow(cells.drop_last(), k);
    } else {
        assert(cells.take(k) =~= cells);
    }
}

/// Tests whether a cell is one that `rule` can give.
pub fn fits(rule: Rule, cell: &Cell) -> (b: bool)
    ensures
        b == cell_fits(rule, cell@),
{
    match rule {
        Rule::Text => match cell {
            Cell::Text(_) => true,
            _ => false,
        },
        Rule::Byte => match cell {
            Cell::Integer(n) => 0 <= *n && *n <= 255,
            _ => false,
        },
        Rule::Hour => match cell {
            Cell::Integer(n) => -32768 <= *n && *n <= 32767,
            _ => false,
        },
        Rule::Latitude | Rule::Longitude => match cell {
            Cell::Integer(n) => -0x7fff_ffff <= *n,
            _ => false,
        },
        Rule::OptionalNumber => match cell {
            Cell::Integer(n) => 0 <= *n && *n <= 65535,
            Cell::Null => true,
            _ => false,
        },
        Rule::OptionalText => match cell {
            Cell::Text(s) => !s.as_str().is_empty(),
            Cell::Null => true,
            _ => false,
        },
    }
}

/// One decoded forecast-track entry.
///
/// A record holds a value for every column of the schema, each fit for the
/// rule of its column, and cannot be changed once it is made.
#[derive(Clone, Debug, PartialEq, Eq)]
pub struct Record {
    cells: Vec<Cell>,
}

impl View for Record {
    type V = Seq<CellValue>;

    closed spec fn view(&self) -> Seq<CellValue> {
        values_of(self.cells@)
    }
}

impl Record {
    /// Whether the record holds a fit value for every column.
    pub open spec fn wf(&self) -> bool {
        conforms(self@)
    }

    /// The record of cells that are known to fit the schema.
    pub(crate) fn assemble(cells: Vec<Cell>) -> (record: Record)
        requires
            conforms(values_of(cells@)),
        ensures
            record.wf(),
            record@ == values_of(cells@),
    {
        Record { cells }
    }

    /// Makes a record of one cell per column. Gives none where the cells are
    /// not as many as the columns, or where one does not fit its column.
    pub fn from_cells(cells: Vec<Cell>) -> (r: Option<Record>)
        ensures
            r is Some <==> conforms(values_of(cells@)),
            r matches Some(record) ==> record.wf() && record@ == values_of(cells@),
    {
        if cells.len() != COLUMN_COUNT {
            return None;
        }
        let mut j: usize = 0;
        while j < COLUMN_COUNT
            invariant
                j <= COLUMN_COUNT,
                cells@.len() == COLUMN_COUNT,
                forall|k: int| 0 <= k < j ==> cell_fits(rule_at(k), #[trigger] values_of(cells@)[k]),
            decreases COLUMN_COUNT - j,
        {
            if !fits(SCHEMA[j].1, &cells[j]) {
                assert(!cell_fits(rule_at(j as int), values_of(cells@)[j as int]));
                return None;
            }
            j = j + 1;
        }
        Some(Record { cells })
    }

    /// The cell of column `j`, if the schema has a column there.
    pub fn cell(&self, j: usize) -> (r: Option<&Cell>)
        requires
            self.wf(),
        ensures
            r is Some <==> j < COLUMN_COUNT,
            r matches Some(c) ==> c@ == self@[j as int],
    {
        if j < COLUMN_COUNT {
            Some(&self.cells[j])
        } else {
            None
        }
    }

    /// The text of column `j`, if the record has text there.
    pub fn text(&self, j: usize) -> (r: Option<&str>)
        requires
            self.wf(),
        ensures
            r is Some <==> j < COLUMN_COUNT && self@[j as int] is Text,
            r matches Some(s) ==> self@[j as int] == CellValue::Text(s@),
    {
        if j >= COLUMN_COUNT {
            return None;
        }
        match &self.cells[j] {
            Cell::Text(s) => Some(s.as_str()),
            _ => None,
        }
    }

    /// The number of column `j`, if the record has a number there.
    pub fn number(&self, j: usize) -> (r: Option<i32>)
        requires
            self.wf(),
        ensures
            r is Some <==> j < COLUMN_COUNT && self@[j as int] is Integer,
            r matches Some(n) ==> self@[j as int] == CellValue::Integer(n as int),
    {
        if j >= COLUMN_COUNT {
            return None;
        }
        match &self.cells[j] {
            Cell::Integer(n) => Some(*n),
            _ => None,
        }
    }

    /// The basin code.
    pub fn basin(&self) -> (s: &str)
        requires
            self.wf(),
        ensures
            self@[BASIN as int] == CellValue::Text(s@),
    {
        match self.text(BASIN) {
            Some(s) => s,
            None => "",
        }
    }

    /// The annual number of the storm.
    pub fn storm_number(&self) -> (n: u8)
        requires
            self.wf(),
        ensures
            self@[STORM_NUMBER as int] == CellValue::Integer(n as int),
    {
        match self.number(STORM_NUMBER) {
            Some(n) => n as u8,
            None => 0,
        }
    }

    /// The time at which the forecast was initialised, as the line writes it.
    pub fn init_time(&self) -> (s: &str)
        requires
            self.wf(),
        ensures
            self@[INIT_TIME as int] == CellValue::Text(s@),
    {
        match self.text(INIT_TIME) {
            Some(s) => s,
            None => "",
        }
    }

    /// The number of the technique.
    pub fn tech_num(&self) -> (n: u8)
        requires
            self.wf(),
        ensures
            self@[TECH_NUM as int] == CellValue::Integer(n as int),
    {
        match self.number(TECH_NUM) {
            Some(n) => n as u8,
            None => 0,
        }
    }

    /// The code of the forecast model.
    pub fn model(&self) -> (s: &str)
        requires
            self.wf(),
        ensures
            self@[MODEL as int] == CellValue::Text(s@),
    {
        match self.text(MODEL) {
            Some(s) => s,
            None => "",
        }
    }

    /// The forecast period in hours.
    pub fn forecast_hour(&self) -> (n: i16)
        requires
            self.wf(),
        ensures
            self@[FORECAST_HOUR as int] == CellValue::Integer(n as int),
    {
        match self.number(FORECAST_HOUR) {
            Some(n) => n as i16,
            None => 0,
        }
    }

    /// The latitude in tenths of a degree, north positive.
    pub fn latitude(&self) -> (n: i32)
        requires
            self.wf(),
        ensures
            self@[LATITUDE as int] == CellValue::Integer(n as int),
    {
        match self.number(LATITUDE) {
            Some(n) => n,
            None => 0,
        }
    }

    /// The longitude in tenths of a degree, east positive.
    pub fn longitude(&self) -> (n: i32)
        requires
            self.wf(),
        ensures
            self@[LONGITUDE as int] == CellValue::Integer(n as int),
    {
        match self.number(LONGITUDE) {
            Some(n) => n,
            None => 0,
        }
    }

    /// The maximum sustained wind speed in knots, if the line gives one.
    pub fn wind_speed(&self) -> (r: Option<u16>)
        requires
            self.wf(),
        ensures
            match r {
                Some(n) => self@[WIND_SPEED as int] == CellValue::Integer(n as int),
                None => self@[WIND_SPEED as int] == CellValue::Null,
            },
    {
        match self.number(WIND_SPEED) {
            Some(n) => Some(n as u16),
            None => None,
        }
    }

    /// The minimum sea level pressure in hPa, if the line gives one.
    pub fn pressure(&self) -> (r: Option<u16>)
        requires
            self.wf(),
        ensures
            match r {
                Some(n) => self@[PRESSURE as int] == CellValue::Integer(n as int),
                None => self@[PRESSURE as int] == CellValue::Null,
            },
    {
        match self.number(PRESSURE) {
            Some(n) => Some(n as u16),
            None => None,
        }
    }

    /// The code of the storm's level of development, if the line gives one.
    pub fn storm_type(&self) -> (r: Option<&str>)
        requires
            self.wf(),
        ensures
            match r {
                Some(s) => self@[STORM_TYPE as int] == CellValue::Text(s@),
                None => self@[STORM_TYPE as int] == CellValue::Null,
            },
    {
        self.text(STORM_TYPE)
    }
}

} // verus!
