//! The fixed schema: the columns of a record in the order of the fields of a
//! line, each with its name and the rule by which its field is decoded.

use vstd::prelude::*;
use crate::text::{chars_of, same_chars};

verus! {

/// How the field of a column is decoded.
#[derive(Clone, Copy, Debug, PartialEq, Eq, Structural)]
pub enum Rule {
    /// Required text, kept as it is written.
    Text,
    /// Required number from 0 to 255; 0 where the field writes none.
    Byte,
    /// Required number from -32768 to 32767; 0 where the field writes none.
    Hour,
    /// Required latitude in tenths of a degree, north positive.
    Latitude,
    /// Required longitude in tenths of a degree, east positive.
    Longitude,
    /// Optional number from 0 to 65535; absent where the field writes none.
    OptionalNumber,
    /// Optional text; absent where the field is empty.
    OptionalText,
}

/// What the values of a column are.
#[derive(Clone, Copy, Debug, PartialEq, Eq, Structural)]
pub enum ColumnType {
    Text,
    Integer,
}

/// The number of columns.
pub const COLUMN_COUNT: usize = 45;

/// The number of leading fields that every accepted line has.
pub const REQUIRED_FIELDS: usize = 8;

/// The columns, in the order of the fields of a line.
pub const SCHEMA: [(&'static str, Rule); 45] = [
    ("basin", Rule::Text),
    ("storm_number", Rule::Byte),
    ("init_time", Rule::Text),
    ("tech_num", Rule::Byte),
    ("model", Rule::Text),
    ("forecast_hour", Rule::Hour),
    ("latitude", Rule::Latitude),
    ("longitude", Rule::Longitude),
    ("wind_speed", Rule::OptionalNumber),
    ("pressure", Rule::OptionalNumber),
    ("storm_type", Rule::OptionalText),
    ("rad", Rule::OptionalNumber),
    ("windcode", Rule::OptionalText),
    ("rad_neq", Rule::OptionalNumber),
    ("rad_seq", Rule::OptionalNumber),
    ("rad_swq", Rule::OptionalNumber),
    ("rad_nwq", Rule::OptionalNumber),
    ("pouter", Rule::OptionalNumber),
    ("router", Rule::OptionalNumber),
    ("rmw", Rule::OptionalNumber),
    ("gusts", Rule::OptionalNumber),
    ("eye", Rule::OptionalNumber),
    ("subregion", Rule::OptionalText),
    ("maxseas", Rule::OptionalNumber),
    ("initials", Rule::OptionalText),
    ("direction", Rule::OptionalNumber),
    ("speed", Rule::OptionalNumber),
    ("stormname", Rule::OptionalText),
    ("depth", Rule::OptionalText),
    ("seas", Rule::OptionalNumber),
    ("seascode", Rule::OptionalText),
    ("seas1", Rule::OptionalNumber),
    ("seas2", Rule::OptionalNumber),
    ("seas3", Rule::OptionalNumber),
    ("seas4", Rule::OptionalNumber),
    ("userdefined1", Rule::OptionalText),
    ("userdata1", Rule::OptionalText),
    ("userdefined2", Rule::OptionalText),
    ("userdata2", Rule::OptionalText),
    ("userdefined3", Rule::OptionalText),
    ("userdata3", Rule::OptionalText),
    ("userdefined4", Rule::OptionalText),
    ("userdata4", Rule::OptionalText),
    ("userdefined5", Rule::OptionalText),
    ("userdata5", Rule::OptionalText),
];

/// The position of the basin code.
pub const BASIN: usize = 0;

/// The position of the annual number of the storm.
pub const STORM_NUMBER: usize = 1;

/// The position of the time of initialisation.
pub const INIT_TIME: usize = 2;

/// The position of the number of the technique.
pub const TECH_NUM: usize = 3;

/// The position of the code of the forecast model.
pub const MODEL: usize = 4;

/// The position of the forecast period.
pub const FORECAST_HOUR: usize = 5;

/// The position of the latitude.
pub const LATITUDE: usize = 6;

/// The position of the longitude.
pub const LONGITUDE: usize = 7;

/// The position of the maximum sustained wind speed.
pub const WIND_SPEED: usize = 8;

/// The position of the minimum sea level pressure.
pub const PRESSURE: usize = 9;

/// The position of the storm's level of development.
pub const STORM_TYPE: usize = 10;

/// The name of column `j`.
pub open spec fn name_at(j: int) -> Seq<char> {
    SCHEMA[j].0@
}

/// The rule of column `j`.
pub open spec fn rule_at(j: int) -> Rule {
    SCHEMA[j].1
}

impl Rule {
    /// What the values decoded by this rule are.
    pub open spec fn column_type(self) -> ColumnType {
        match self {
            Rule::Text | Rule::OptionalText => ColumnType::Text,
            _ => ColumnType::Integer,
        }
    }

    /// Whether a value decoded by this rule may be absent.
    pub open spec fn nullable(self) -> bool {
        self == Rule::OptionalNumber || self == Rule::OptionalText
    }

    /// The type of the values that the rule gives.
    pub fn value_type(self) -> (t: ColumnType)
        ensures
            t == self.column_type(),
    {
        match self {
            Rule::Text => ColumnType::Text,
            Rule::OptionalText => ColumnType::Text,
            _ => ColumnType::Integer,
        }
    }

    /// Whether the rule may give no value.
    pub fn is_nullable(self) -> (b: bool)
        ensures
            b == self.nullable(),
    {
        match self {
            Rule::OptionalNumber => true,
            Rule::OptionalText => true,
            _ => false,
        }
    }
}

/// The name of column `j`, if the schema has a column there.
pub fn column_name(j: usize) -> (r: Option<&'static str>)
    ensures
        r is Some <==> j < COLUMN_COUNT,
        r matches Some(name) ==> name@ == name_at(j as int),
{
    if j < COLUMN_COUNT {
        Some(SCHEMA[j].0)
    } else {
        None
    }
}

/// The rule of column `j`, if the schema has a column there.
pub fn column_rule(j: usize) -> (r: Option<Rule>)
    ensures
        r is Some <==> j < COLUMN_COUNT,
        r matches Some(rule) ==> rule == rule_at(j as int),
{
    if j < COLUMN_COUNT {
        Some(SCHEMA[j].1)
    } else {
        None
    }
}

/// Whether `name` is the name of a column.
pub open spec fn is_column_name(name: Seq<char>) -> bool {
    exists|j: int| 0 <= j < COLUMN_COUNT && #[trigger] name_at(j) == name
}

/// Whether two sequences of characters differ at place `i`.
spec fn differ_at(a: Seq<char>, b: Seq<char>, i: int) -> bool {
    i < a.len() && a[i] != b[i]
}

/// No two columns have the same name.
pub proof fn lemma_names_distinct()
    ensures
        forall|j: int, k: int|
            0 <= j < k < COLUMN_COUNT ==> #[trigger] name_at(j) != #[trigger] name_at(k),
{
    reveal_strlit("basin");
    reveal_strlit("storm_number");
    reveal_strlit("init_time");
    reveal_strlit("tech_num");
    reveal_strlit("model");
    reveal_strlit("forecast_hour");
    reveal_strlit("latitude");
    reveal_strlit("longitude");
    reveal_strlit("wind_speed");
    reveal_strlit("pressure");
    reveal_strlit("storm_type");
    reveal_strlit("rad");
    reveal_strlit("windcode");
    reveal_strlit("rad_neq");
    reveal_strlit("rad_seq");
    reveal_strlit("rad_swq");
    reveal_strlit("rad_nwq");
    reveal_strlit("pouter");
    reveal_strlit("router");
    reveal_strlit("rmw");
    reveal_strlit("gusts");
    reveal_strlit("eye");
    reveal_strlit("subregion");
    reveal_strlit("maxseas");
    reveal_strlit("initials");
    reveal_strlit("direction");
    reveal_strlit("speed");
    reveal_strlit("stormname");
    reveal_strlit("depth");
    reveal_strlit("seas");
    reveal_strlit("seascode");
    reveal_strlit("seas1");
    reveal_strlit("seas2");
    reveal_strlit("seas3");
    reveal_strlit("seas4");
    reveal_strlit("userdefined1");
    reveal_strlit("userdata1");
    reveal_strlit("userdefined2");
    reveal_strlit("userdata2");
    reveal_strlit("userdefined3");
    reveal_strlit("userdata3");
    reveal_strlit("userdefined4");
    reveal_strlit("userdata4");
    reveal_strlit("userdefined5");
    reveal_strlit("userdata5");
    assert forall|j: int, k: int| 0 <= j < k < COLUMN_COUNT implies #[trigger] name_at(j)
        != #[trigger] name_at(k) by {
        lemma_position(j);
        lemma_position(k);
        let a = name_at(j);
        let b = name_at(k);
        assert({
            ||| a.len() != b.len()
            ||| differ_at(a, b, 0)
            ||| differ_at(a, b, 1)
            ||| differ_at(a, b, 2)
            ||| differ_at(a, b, 3)
            ||| differ_at(a, b, 4)
            ||| differ_at(a, b, 5)
            ||| differ_at(a, b, 6)
            ||| differ_at(a, b, 7)
            ||| differ_at(a, b, 8)
            ||| differ_at(a, b, 9)
            ||| differ_at(a, b, 10)
            ||| differ_at(a, b, 11)
            ||| differ_at(a, b, 12)
        });
    }
}

/// A position in the schema is one of its forty-five positions.
proof fn lemma_position(i: int)
    requires
        0 <= i < COLUMN_COUNT,
    ensures
        ({
            ||| i == 0
            ||| i == 1
            ||| i == 2
            ||| i == 3
            ||| i == 4
            ||| i == 5
            ||| i == 6
            ||| i == 7
            ||| i == 8
            ||| i == 9
            ||| i == 10
            ||| i == 11
            ||| i == 12
            ||| i == 13
            ||| i == 14
            ||| i == 15
            ||| i == 16
            ||| i == 17
            ||| i == 18
            ||| i == 19
            ||| i == 20
            ||| i == 21
            ||| i == 22
            ||| i == 23
            ||| i == 24
            ||| i == 25
            ||| i == 26
            ||| i == 27
            ||| i == 28
            ||| i == 29
            ||| i == 30
            ||| i == 31
            ||| i == 32
            ||| i == 33
            ||| i == 34
            ||| i == 35
            ||| i == 36
            ||| i == 37
            ||| i == 38
            ||| i == 39
            ||| i == 40
            ||| i == 41
            ||| i == 42
            ||| i == 43
            ||| i == 44
        }),
{
}

/// The position of the column with the given name.
pub fn column_index(name: &str) -> (r: Option<usize>)
    ensures
        r is Some <==> is_column_name(name@),
        forall|j: int|
            0 <= j < COLUMN_COUNT ==> (r == Some(j as usize) <==> #[trigger] name_at(j) == name@),
{
    let wanted = chars_of(name);
    let mut j: usize = 0;
    while j < COLUMN_COUNT
        invariant
            j <= COLUMN_COUNT,
            wanted@ == name@,
            forall|k: int| 0 <= k < j ==> #[trigger] name_at(k) != name@,
        decreases COLUMN_COUNT - j,
    {
        let candidate = chars_of(SCHEMA[j].0);
        assert(candidate@ == name_at(j as int));
        if same_chars(&wanted, &candidate) {
            proof {
                lemma_names_distinct();
            }
            return Some(j);
        }
        j = j + 1;
    }
    None
}

/// The columns in order, each with its name, the type of its values, and
/// whether a value may be absent.
pub fn schema() -> (columns: Vec<(&'static str, ColumnType, bool)>)
    ensures
        columns@.len() == COLUMN_COUNT,
        forall|j: int|
            #![trigger columns@[j]]
            0 <= j < COLUMN_COUNT ==> columns@[j].0@ == name_at(j) && columns@[j].1 == rule_at(
                j,
            ).column_type() && columns@[j].2 == rule_at(j).nullable(),
{
    let mut columns: Vec<(&'static str, ColumnType, bool)> = Vec::new();
    let mut j: usize = 0;
    while j < COLUMN_COUNT
        invariant
            j <= COLUMN_COUNT,
            columns@.len() == j,
            forall|k: int|
                #![trigger columns@[k]]
                0 <= k < j ==> columns@[k].0@ == name_at(k) && columns@[k].1 == rule_at(
                    k,
                ).column_type() && columns@[k].2 == rule_at(k).nullable(),
        decreases COLUMN_COUNT - j,
    {
        let rule = SCHEMA[j].1;
        columns.push((SCHEMA[j].0, rule.value_type(), rule.is_nullable()));
        j = j + 1;
    }
    columns
}

} // verus!
