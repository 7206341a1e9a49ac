//! Decoding of A-deck tropical cyclone forecast records, and their
//! accumulation into a columnar table with a fixed schema.
//!
//! An A-deck line is a run of fields separated by commas. The decoder
//! ([`decoder`]) splits a line, trims its fields ([`text`]), and decodes the
//! field at each position by the rule of the column at that position
//! ([`schema`]): text is kept as it is written, numbers are read as decimal
//! integers ([`number`]), and latitude and longitude by the coordinate rule
//! ([`coordinate`]). The outcome is a [`record::Record`], or nothing for a
//! line that cannot form one.
//!
//! Records are appended to a data frame ([`frame`]), which keeps one Arrow
//! builder per column ([`column`]) and fills them in lock-step. A frame is
//! finalized into a [`table::Table`], which can be read by column and handed
//! on as an Arrow record batch. [`pipeline`] puts the steps together.
//!
//! Coordinates are fixed-point numbers: integers that count tenths of a
//! degree, north and east positive.

pub mod column;
pub mod coordinate;
pub mod decoder;
pub mod frame;
pub mod number;
pub mod pipeline;
pub mod record;
pub mod schema;
pub mod table;
pub mod text;

pub use crate::coordinate::parse_coordinate;
pub use crate::decoder::{parse_adeck_line, parse_adeck_lines};
pub use crate::frame::{ArrowDataFrame, FrameError};
pub use crate::pipeline::{parse_adeck, table_of};
pub use crate::record::{Cell, Record};
pub use crate::table::{Column, Table};
