use adeck_parser::decoder::parse_adeck_line;
use adeck_parser::frame::{ArrowDataFrame, FrameError};
use adeck_parser::pipeline::{parse_adeck, table_of};
use adeck_parser::record::Record;
use adeck_parser::schema::{column_index, column_name, column_rule, schema, ColumnType, Rule, COLUMN_COUNT, REQUIRED_FIELDS};
use adeck_parser::table::Column;
use arrow::array::{Array, Int32Array, StringArray};
use arrow::datatypes::DataType;

fn record(line: &str) -> Record {
    parse_adeck_line(line).unwrap()
}

fn three_records() -> Vec<Record> {
    vec![
        record("AL, 01, 2020082512, 03, OFCL, 0, 123N, 0456W, 65, 985, HU"),
        record("EP, 02, 2020082518, 01, HWRF, 12, 100S, 800E"),
        record("WP, 03, 2020082600, 02, JTWC, 24, 215N, 1301E, , 990, TY, 34, NEQ"),
    ]
}

#[test]
fn the_schema_has_every_column_once() {
    let columns = schema();
    assert_eq!(columns.len(), COLUMN_COUNT);
    assert_eq!(COLUMN_COUNT, 45);
    assert_eq!(REQUIRED_FIELDS, 8);
    for (j, column) in columns.iter().enumerate() {
        assert_eq!(Some(column.0), column_name(j));
        assert_eq!(column_index(column.0), Some(j));
        let rule = column_rule(j).unwrap();
        assert_eq!(column.1, rule.value_type());
        assert_eq!(column.2, rule.is_nullable());
    }
    assert_eq!(column_index("no_such_column"), None);
    assert_eq!(column_index(""), None);
    assert_eq!(column_index("Basin"), None);
}

#[test]
fn the_schema_in_order() {
    let names: Vec<&str> = schema().iter().map(|column| column.0).collect();
    assert_eq!(
        names,
        vec![
            "basin", "storm_number", "init_time", "tech_num", "model", "forecast_hour", "latitude",
            "longitude", "wind_speed", "pressure", "storm_type", "rad", "windcode", "rad_neq",
            "rad_seq", "rad_swq", "rad_nwq", "pouter", "router", "rmw", "gusts", "eye", "subregion",
            "maxseas", "initials", "direction", "speed", "stormname", "depth", "seas", "seascode",
            "seas1", "seas2", "seas3", "seas4", "userdefined1", "userdata1", "userdefined2",
            "userdata2", "userdefined3", "userdata3", "userdefined4", "userdata4", "userdefined5",
            "userdata5",
        ]
    );
    assert_eq!(column_rule(0), Some(Rule::Text));
    assert_eq!(column_rule(1), Some(Rule::Byte));
    assert_eq!(column_rule(5), Some(Rule::Hour));
    assert_eq!(column_rule(6), Some(Rule::Latitude));
    assert_eq!(column_rule(7), Some(Rule::Longitude));
    assert_eq!(column_rule(8), Some(Rule::OptionalNumber));
    assert_eq!(column_rule(10), Some(Rule::OptionalText));
    assert_eq!(column_rule(44), Some(Rule::OptionalText));
    assert_eq!(column_rule(45), None);
    assert_eq!(column_name(44), Some("userdata5"));
    assert_eq!(column_name(45), None);
    assert_eq!(schema()[0], ("basin", ColumnType::Text, false));
    assert_eq!(schema()[6], ("latitude", ColumnType::Integer, false));
    assert_eq!(schema()[8], ("wind_speed", ColumnType::Integer, true));
    assert_eq!(schema()[10], ("storm_type", ColumnType::Text, true));
}

#[test]
fn a_new_frame_is_empty() {
    let frame = ArrowDataFrame::new();
    assert_eq!(frame.row_count(), 0);
    let table = frame.finalize();
    assert_eq!(table.row_count(), 0);
    for j in 0..COLUMN_COUNT {
        match table.column_at(j).unwrap() {
            Column::Text(values) => assert!(values.is_empty()),
            Column::Integer(values) => assert!(values.is_empty()),
        }
    }
    assert_eq!(table.to_record_batch().inner.num_rows(), 0);
}

#[test]
fn every_column_is_as_long_as_the_rows_are_many() {
    let mut frame = ArrowDataFrame::new();
    let records = three_records();
    for (n, record) in records.iter().enumerate() {
        assert_eq!(frame.row_count(), n);
        assert_eq!(frame.append_row(record), Ok(()));
    }
    assert_eq!(frame.row_count(), 3);
    let table = frame.finalize();
    assert_eq!(table.row_count(), 3);
    for j in 0..COLUMN_COUNT {
        let length = match table.column_at(j).unwrap() {
            Column::Text(values) => values.len(),
            Column::Integer(values) => values.len(),
        };
        assert_eq!(length, 3);
    }
}

#[test]
fn rows_keep_the_order_of_arrival() {
    let records = three_records();
    let table = table_of(&records).unwrap();
    assert_eq!(
        table.column("basin"),
        Some(Column::Text(vec![Some("AL".to_string()), Some("EP".to_string()), Some("WP".to_string())]))
    );
    assert_eq!(table.column("forecast_hour"), Some(Column::Integer(vec![Some(0), Some(12), Some(24)])));
    assert_eq!(table.column("latitude"), Some(Column::Integer(vec![Some(123), Some(-100), Some(215)])));
    assert_eq!(table.column("longitude"), Some(Column::Integer(vec![Some(-456), Some(800), Some(1301)])));
    assert_eq!(table.column("wind_speed"), Some(Column::Integer(vec![Some(65), None, None])));
    assert_eq!(table.column("pressure"), Some(Column::Integer(vec![Some(985), None, Some(990)])));
    assert_eq!(
        table.column("storm_type"),
        Some(Column::Text(vec![Some("HU".to_string()), None, Some("TY".to_string())]))
    );
    assert_eq!(table.column("rad"), Some(Column::Integer(vec![None, None, Some(34)])));
    assert_eq!(table.column("windcode"), Some(Column::Text(vec![None, None, Some("NEQ".to_string())])));
    assert_eq!(table.column("userdata5"), Some(Column::Text(vec![None, None, None])));
    assert_eq!(table.column("nothing"), None);
    assert_eq!(table.column_at(0), table.column("basin"));
    assert_eq!(table.column_at(COLUMN_COUNT), None);
}

#[test]
fn every_cell_of_the_table_is_that_of_its_record() {
    let records = three_records();
    let table = table_of(&records).unwrap();
    for j in 0..COLUMN_COUNT {
        match table.column_at(j).unwrap() {
            Column::Text(values) => {
                assert_eq!(schema()[j].1, ColumnType::Text);
                for (i, value) in values.iter().enumerate() {
                    assert_eq!(value.as_deref(), records[i].text(j));
                }
            }
            Column::Integer(values) => {
                assert_eq!(schema()[j].1, ColumnType::Integer);
                for (i, value) in values.iter().enumerate() {
                    assert_eq!(*value, records[i].number(j));
                }
            }
        }
    }
}

#[test]
fn the_table_names_its_schema() {
    let table = table_of(&three_records()).unwrap();
    assert_eq!(table.schema(), schema());
}

#[test]
fn the_same_record_may_come_twice() {
    let one = record("AL, 01, 2020082512, 03, OFCL, 0, 123N, 0456W, 65, 985, HU");
    let mut frame = ArrowDataFrame::new();
    assert_eq!(frame.append_row(&one), Ok(()));
    assert_eq!(frame.append_row(&one), Ok(()));
    let table = frame.finalize();
    assert_eq!(table.row_count(), 2);
    assert_eq!(table.column("model"), Some(Column::Text(vec![Some("OFCL".to_string()), Some("OFCL".to_string())])));
}

#[test]
fn a_full_frame_takes_nothing_of_the_record() {
    let first = record("AL, 01, 2020082512, 03, OFCL, 0, 123N, 0456W, 65, 985, HU");
    let mut frame = ArrowDataFrame::with_text_limit(19);
    assert_eq!(frame.append_row(&first), Ok(()));
    assert_eq!(frame.append_row(&first), Err(FrameError::Full));
    assert_eq!(frame.row_count(), 1);
    let small = record("A, 1, , 3, , 0, 1N, 1E");
    assert_eq!(frame.append_row(&small), Ok(()));
    assert_eq!(frame.row_count(), 2);
    let table = frame.finalize();
    assert_eq!(table.row_count(), 2);
    for j in 0..COLUMN_COUNT {
        let length = match table.column_at(j).unwrap() {
            Column::Text(values) => values.len(),
            Column::Integer(values) => values.len(),
        };
        assert_eq!(length, 2);
    }
    assert_eq!(table.column("basin"), Some(Column::Text(vec![Some("AL".to_string()), Some("A".to_string())])));
    assert_eq!(table.column("init_time"), Some(Column::Text(vec![Some("2020082512".to_string()), Some(String::new())])));
}

#[test]
fn the_limit_is_for_each_column_alone() {
    let first = record("AL, 01, 2020082512, 03, OFCL, 0, 123N, 0456W, 65, 985, HU");
    let mut frame = ArrowDataFrame::with_text_limit(10);
    assert_eq!(frame.append_row(&first), Ok(()));
    assert_eq!(frame.append_row(&record("12345678, 1, , 3, 123456, 0, 1N, 1E, , , 12345678")), Ok(()));
    assert_eq!(frame.append_row(&record(", 1, x, 3, , 0, 1N, 1E")), Err(FrameError::Full));
    assert_eq!(frame.append_row(&record("x, 1, , 3, , 0, 1N, 1E")), Err(FrameError::Full));
    assert_eq!(frame.append_row(&record(", 1, , 3, x, 0, 1N, 1E")), Err(FrameError::Full));
    assert_eq!(frame.append_row(&record(", 1, , 3, , 0, 1N, 1E, , , x")), Err(FrameError::Full));
    assert_eq!(frame.append_row(&record(", 1, , 3, , 0, 1N, 1E, 7, 8, , 9, 123456789")), Ok(()));
    assert_eq!(frame.row_count(), 3);
    let table = frame.finalize();
    assert_eq!(
        table.column("basin"),
        Some(Column::Text(vec![Some("AL".to_string()), Some("12345678".to_string()), Some(String::new())]))
    );
    assert_eq!(
        table.column("windcode"),
        Some(Column::Text(vec![None, None, Some("123456789".to_string())]))
    );
}

#[test]
fn a_frame_takes_text_up_to_its_limit() {
    let first = record("AL, 01, 2020082512, 03, OFCL, 0, 123N, 0456W, 65, 985, HU");
    let mut exact = ArrowDataFrame::with_text_limit(20);
    assert_eq!(exact.append_row(&first), Ok(()));
    assert_eq!(exact.append_row(&first), Ok(()));
    assert_eq!(exact.append_row(&first), Err(FrameError::Full));
    assert_eq!(exact.row_count(), 2);
    let mut none = ArrowDataFrame::with_text_limit(0);
    assert_eq!(none.append_row(&first), Err(FrameError::Full));
    assert_eq!(none.append_row(&record(", 1, , 3, , 0, 1N, 1E")), Ok(()));
    assert_eq!(none.row_count(), 1);
}

#[test]
fn the_limit_counts_bytes_of_utf8() {
    let wide = record("Å, 1, , 3, , 0, 1N, 1E");
    let mut one = ArrowDataFrame::with_text_limit(1);
    assert_eq!(one.append_row(&wide), Err(FrameError::Full));
    let mut three = ArrowDataFrame::with_text_limit(3);
    assert_eq!(three.append_row(&wide), Ok(()));
    assert_eq!(three.append_row(&wide), Err(FrameError::Full));
    assert_eq!(three.append_row(&record("a, 1, , 3, , 0, 1N, 1E")), Ok(()));
    assert_eq!(three.row_count(), 2);
}

#[test]
fn many_rows_fit_a_new_frame() {
    let first = record("AL, 01, 2020082512, 03, OFCL, 0, 123N, 0456W, 65, 985, HU");
    let mut frame = ArrowDataFrame::new();
    for _ in 0..5000 {
        assert_eq!(frame.append_row(&first), Ok(()));
    }
    assert_eq!(frame.row_count(), 5000);
    assert_eq!(frame.finalize().to_record_batch().inner.num_rows(), 5000);
}

#[test]
fn lines_to_a_table() {
    let lines = vec![
        "AL, 01, 2020082512, 03, OFCL, 0, 123N, 0456W, 65, 985, HU, , , , , , , , , , , , , , , , , , , , , , , , , , , ,".to_string(),
        "not a record".to_string(),
        "AL, 01, 2020082512, 03, OFCL, 12, 130N, 0470W, 70, 980, HU".to_string(),
        "AL, 01, 2020082512, 03, OFCL, 24, 141N, 04x9W, 75, 975, HU".to_string(),
    ];
    let table = parse_adeck(&lines).unwrap();
    assert_eq!(table.row_count(), 2);
    assert_eq!(table.column("forecast_hour"), Some(Column::Integer(vec![Some(0), Some(12)])));
    assert_eq!(table.column("wind_speed"), Some(Column::Integer(vec![Some(65), Some(70)])));
    assert_eq!(parse_adeck(&Vec::new()).unwrap().row_count(), 0);
}

#[test]
fn the_record_batch_holds_the_table() {
    let records = three_records();
    let table = table_of(&records).unwrap();
    let batch = table.to_record_batch().inner;
    assert_eq!(batch.num_rows(), 3);
    assert_eq!(batch.num_columns(), COLUMN_COUNT);
    let fields = schema();
    for j in 0..COLUMN_COUNT {
        let field = batch.schema().field(j).clone();
        assert_eq!(field.name(), fields[j].0);
        assert_eq!(field.is_nullable(), fields[j].2);
        let column = batch.column(j);
        assert_eq!(column.len(), 3);
        match fields[j].1 {
            ColumnType::Text => {
                assert_eq!(field.data_type(), &DataType::Utf8);
                let array = column.as_any().downcast_ref::<StringArray>().unwrap();
                for i in 0..3 {
                    let value = if array.is_null(i) { None } else { Some(array.value(i)) };
                    assert_eq!(value, records[i].text(j));
                }
            }
            ColumnType::Integer => {
                assert_eq!(field.data_type(), &DataType::Int32);
                let array = column.as_any().downcast_ref::<Int32Array>().unwrap();
                for i in 0..3 {
                    let value = if array.is_null(i) { None } else { Some(array.value(i)) };
                    assert_eq!(value, records[i].number(j));
                }
            }
        }
    }
}
