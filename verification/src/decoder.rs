//! The line decoder: from one line of text to a record, or to nothing where
//! the line cannot form one.

use vstd::prelude::*;
use crate::coordinate::{coordinate, read_coordinate};
use crate::number::{parse_signed, parse_unsigned, read_signed, read_unsigned};
use crate::record::{cell_fits, values_of, Cell, CellValue, Record};
use crate::schema::{
    rule_at, Rule, BASIN, COLUMN_COUNT, INIT_TIME, LATITUDE, LONGITUDE, MODEL,
    REQUIRED_FIELDS, SCHEMA, WIND_SPEED,
};
use crate::text::{chars_of, field_at, field_spans, fields_of, split, trim, Span};

verus! {

/// The letter after a latitude north of the equator.
pub const NORTH: char = 'N';

/// The letter after a latitude south of the equator.
pub const SOUTH: char = 'S';

/// The letter after a longitude east of the prime meridian.
pub const EAST: char = 'E';

/// The letter after a longitude west of the prime meridian.
pub const WEST: char = 'W';

/// The value that `rule` gives for a field, or nothing where the rule rejects
/// the field and with it the line.
pub open spec fn cell_of(rule: Rule, field: Seq<char>) -> Option<CellValue> {
    match rule {
        Rule::Text => Some(CellValue::Text(field)),
        Rule::Byte => match parse_unsigned(field, 255) {
            Some(n) => Some(CellValue::Integer(n as int)),
            None => Some(CellValue::Integer(0)),
        },
        Rule::Hour => match parse_signed(field, 32768, 32767) {
            Some(n) => Some(CellValue::Integer(n)),
            None => Some(CellValue::Integer(0)),
        },
        Rule::Latitude => match coordinate(field, NORTH, SOUTH) {
            Some(n) => Some(CellValue::Integer(n)),
            None => None,
        },
        Rule::Longitude => match coordinate(field, EAST, WEST) {
            Some(n) => Some(CellValue::Integer(n)),
            None => None,
        },
        Rule::OptionalNumber => match parse_unsigned(field, 65535) {
            Some(n) => Some(CellValue::Integer(n as int)),
            None => Some(CellValue::Null),
        },
        Rule::OptionalText => if field.len() == 0 {
            Some(CellValue::Null)
        } else {
            Some(CellValue::Text(field))
        },
    }
}

/// Whether a line is accepted: it has the required leading fields, and its
/// latitude and longitude are coordinates.
pub open spec fn accepted(line: Seq<char>) -> bool {
    let fields = fields_of(line);
    &&& fields.len() >= REQUIRED_FIELDS
    &&& coordinate(fields[LATITUDE as int], NORTH, SOUTH) is Some
    &&& coordinate(fields[LONGITUDE as int], EAST, WEST) is Some
}

/// The values of the record that an accepted line decodes to: for every
/// column, what its rule gives for the field at its position, and for the
/// empty field where the line stops short of it.
pub open spec fn decoded(line: Seq<char>) -> Seq<CellValue> {
    Seq::new(
        COLUMN_COUNT as nat,
        |j: int| cell_of(rule_at(j), field_at(fields_of(line), j)).unwrap(),
    )
}

/// Whether `r` is the outcome of decoding `line`.
pub open spec fn decodes(line: Seq<char>, r: Option<Record>) -> bool {
    match r {
        Some(record) => accepted(line) && record.wf() && record@ == decoded(line),
        None => !accepted(line),
    }
}

/// What a rule gives always fits the rule.
pub proof fn lemma_cell_of_fits(rule: Rule, field: Seq<char>)
    ensures
        cell_of(rule, field) matches Some(v) ==> cell_fits(rule, v),
        cell_of(rule, field) is None ==> rule == Rule::Latitude || rule == Rule::Longitude,
{
}

/// Only the columns of the latitude and the longitude are decoded by the
/// rules of that name.
pub proof fn lemma_coordinate_columns()
    ensures
        forall|j: int|
            0 <= j < COLUMN_COUNT ==> ((#[trigger] rule_at(j)) == Rule::Latitude <==> j
                == LATITUDE),
        forall|j: int|
            0 <= j < COLUMN_COUNT ==> ((#[trigger] rule_at(j)) == Rule::Longitude <==> j
                == LONGITUDE),
{
}

/// Decodes one field by the rule of its column.
fn read_cell(line: &str, chars: &Vec<char>, span: Span, rule: Rule) -> (r: Option<Cell>)
    requires
        chars@ == line@,
        span.within(chars@.len()),
    ensures
        r is Some <==> cell_of(rule, span.of(chars@)) is Some,
        r matches Some(c) ==> cell_of(rule, span.of(chars@)) == Some(c@),
{
    match rule {
        Rule::Text => Some(Cell::Text(line.substring_char(span.start, span.end).to_owned())),
        Rule::Byte => match read_unsigned(chars, span, 255) {
            Some(n) => Some(Cell::Integer(n as i32)),
            None => Some(Cell::Integer(0)),
        },
        Rule::Hour => match read_signed(chars, span, 32768, 32767) {
            Some(n) => Some(Cell::Integer(n as i32)),
            None => Some(Cell::Integer(0)),
        },
        Rule::Latitude => match read_coordinate(chars, span, NORTH, SOUTH) {
            Some(n) => Some(Cell::Integer(n)),
            None => None,
        },
        Rule::Longitude => match read_coordinate(chars, span, EAST, WEST) {
            Some(n) => Some(Cell::Integer(n)),
            None => None,
        },
        Rule::OptionalNumber => match read_unsigned(chars, span, 65535) {
            Some(n) => Some(Cell::Integer(n as i32)),
            None => Some(Cell::Null),
        },
        Rule::OptionalText => if span.start == span.end {
            Some(Cell::Null)
        } else {
            Some(Cell::Text(line.substring_char(span.start, span.end).to_owned()))
        },
    }
}

/// Decodes one line.
///
/// The line is split at its commas and every field is trimmed. A line with
/// fewer than eight fields is rejected, and so is one whose latitude or
/// longitude is no coordinate. Every other line gives a record: a required
/// number that cannot be read is 0, an optional value that is missing or
/// cannot be read is absent.
pub fn parse_adeck_line(line: &str) -> (r: Option<Record>)
    ensures
        decodes(line@, r),
{
    let chars = chars_of(line);
    let spans = field_spans(&chars);
    if spans.len() < REQUIRED_FIELDS {
        return None;
    }
    let ghost fields = fields_of(line@);
    let mut cells: Vec<Cell> = Vec::new();
    let mut j: usize = 0;
    while j < COLUMN_COUNT
        invariant
            j <= COLUMN_COUNT,
            chars@ == line@,
            fields == fields_of(line@),
            spans@.len() == fields.len(),
            forall|k: int|
                0 <= k < spans@.len() ==> (#[trigger] spans@[k]).within(chars@.len())
                    && spans@[k].of(chars@) == fields[k],
            cells@.len() == j,
            forall|k: int|
                0 <= k < j ==> cell_of(rule_at(k), field_at(fields, k)) == Some(
                    (#[trigger] cells@[k])@,
                ),
        decreases COLUMN_COUNT - j,
    {
        let span = if j < spans.len() {
            spans[j]
        } else {
            Span { start: 0, end: 0 }
        };
        proof {
            if j >= spans.len() {
                assert(span.of(chars@) =~= Seq::<char>::empty());
            }
            assert(span.of(chars@) == field_at(fields, j as int));
        }
        match read_cell(line, &chars, span, SCHEMA[j].1) {
            Some(c) => {
                cells.push(c);
            },
            None => {
                proof {
                    lemma_cell_of_fits(rule_at(j as int), field_at(fields, j as int));
                    lemma_coordinate_columns();
                }
                return None;
            },
        }
        j = j + 1;
    }
    proof {
        lemma_coordinate_columns();
        let values = values_of(cells@);
        assert forall|k: int| 0 <= k < COLUMN_COUNT implies #[trigger] values[k] == decoded(
            line@,
        )[k] && cell_fits(rule_at(k), values[k]) by {
            lemma_cell_of_fits(rule_at(k), field_at(fields, k));
            assert(cell_of(rule_at(k), field_at(fields, k)) == Some(cells@[k]@));
        }
        assert(values =~= decoded(line@));
        assert(cell_of(Rule::Latitude, fields[LATITUDE as int]) == Some(values[LATITUDE as int]));
        assert(cell_of(Rule::Longitude, fields[LONGITUDE as int]) == Some(values[LONGITUDE as int]));
    }
    Some(Record::assemble(cells))
}

/// An accepted line gives a record whose basin, initialisation time and model
/// are the first, third and fifth field of the line, trimmed and otherwise as
/// they are written.
pub proof fn lemma_text_verbatim(line: Seq<char>, r: Option<Record>)
    requires
        decodes(line, r),
        fields_of(line).len() >= REQUIRED_FIELDS,
        coordinate(fields_of(line)[LATITUDE as int], NORTH, SOUTH) is Some,
        coordinate(fields_of(line)[LONGITUDE as int], EAST, WEST) is Some,
    ensures
        r is Some,
        r.unwrap()@[BASIN as int] == CellValue::Text(trim(split(line)[BASIN as int])),
        r.unwrap()@[INIT_TIME as int] == CellValue::Text(trim(split(line)[INIT_TIME as int])),
        r.unwrap()@[MODEL as int] == CellValue::Text(trim(split(line)[MODEL as int])),
{
}

/// A line whose latitude does not end in `N` or `S`, or whose longitude does
/// not end in `E` or `W`, is rejected.
pub proof fn lemma_hemisphere_letter(line: Seq<char>, r: Option<Record>)
    requires
        decodes(line, r),
        fields_of(line).len() >= REQUIRED_FIELDS,
        ({
            let latitude = fields_of(line)[LATITUDE as int];
            let longitude = fields_of(line)[LONGITUDE as int];
            ||| latitude.len() == 0
            ||| (latitude.last() != NORTH && latitude.last() != SOUTH)
            ||| longitude.len() == 0
            ||| (longitude.last() != EAST && longitude.last() != WEST)
        }),
    ensures
        r is None,
{
}

/// A line with fewer than eight fields is rejected, whatever it holds.
pub proof fn lemma_short_line_rejected(line: Seq<char>, r: Option<Record>)
    requires
        decodes(line, r),
        split(line).len() < REQUIRED_FIELDS,
    ensures
        r is None,
{
}

/// A record of a line that stops before the wind speed, or leaves its field
/// empty, has no wind speed: the value is absent, and not zero.
pub proof fn lemma_missing_wind_speed(line: Seq<char>, r: Option<Record>)
    requires
        decodes(line, r),
        r is Some,
        field_at(fields_of(line), WIND_SPEED as int).len() == 0,
    ensures
        r.unwrap()@[WIND_SPEED as int] == CellValue::Null,
        r.unwrap()@[WIND_SPEED as int] != CellValue::Integer(0),
{
}

/// Decoding is a function of the line: two outcomes of decoding one line are
/// both a rejection, or both a record with the same values.
pub proof fn lemma_decoding_deterministic(line: Seq<char>, first: Option<Record>, second: Option<Record>)
    requires
        decodes(line, first),
        decodes(line, second),
    ensures
        first is Some <==> second is Some,
        first is Some ==> first.unwrap()@ == second.unwrap()@,
{
}

/// The text of each line.
pub open spec fn texts_of(lines: Seq<String>) -> Seq<Seq<char>> {
    lines.map_values(|line: String| line@)
}

/// The values of each record.
pub open spec fn views_of(records: Seq<Record>) -> Seq<Seq<CellValue>> {
    records.map_values(|record: Record| record@)
}

/// The records that a sequence of lines decodes to: those of the accepted
/// lines, in the order of the lines.
pub open spec fn decoded_lines(lines: Seq<Seq<char>>) -> Seq<Seq<CellValue>>
    decreases lines.len(),
{
    if lines.len() == 0 {
        Seq::empty()
    } else if accepted(lines.last()) {
        decoded_lines(lines.drop_last()).push(decoded(lines.last()))
    } else {
        decoded_lines(lines.drop_last())
    }
}

/// Decodes every line and keeps the records of the accepted ones, in the
/// order of the lines. A line that is rejected is passed over.
pub fn parse_adeck_lines(lines: &Vec<String>) -> (records: Vec<Record>)
    ensures
        views_of(records@) == decoded_lines(texts_of(lines@)),
        forall|i: int| 0 <= i < records@.len() ==> (#[trigger] records@[i]).wf(),
{
    let mut records: Vec<Record> = Vec::new();
    let mut i: usize = 0;
    proof {
        assert(texts_of(lines@).take(0) =~= Seq::<Seq<char>>::empty());
        assert(views_of(records@) =~= Seq::<Seq<CellValue>>::empty());
    }
    while i < lines.len()
        invariant
            i <= lines@.len(),
            views_of(records@) == decoded_lines(texts_of(lines@).take(i as int)),
            forall|k: int| 0 <= k < records@.len() ==> (#[trigger] records@[k]).wf(),
        decreases lines@.len() - i,
    {
        let ghost kept = records@;
        proof {
            let texts = texts_of(lines@);
            assert(texts.take(i + 1).drop_last() =~= texts.take(i as int));
            assert(texts.take(i + 1).last() == lines@[i as int]@);
        }
        match parse_adeck_line(lines[i].as_str()) {
            Some(record) => {
                records.push(record);
                proof {
                    assert(views_of(records@) =~= views_of(kept).push(record@));
                }
            },
            None => {},
        }
        i = i + 1;
    }
    proof {
        assert(texts_of(lines@).take(i as int) =~= texts_of(lines@));
    }
    records
}

} // verus!
