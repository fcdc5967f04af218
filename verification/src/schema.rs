//! The fixed column layout shared by the writer and any downstream reader.
//!
//! A schema is an ordered sequence of named, typed columns. The writer emits
//! columns in exactly this order; changing the order is a breaking format
//! change. Measurements are fixed-precision: a cell of type
//! [`ColumnType::FixedMicro`] holds millionths of the measured unit in a
//! signed 64-bit integer, so one millionth is the finest distinction kept.
use vstd::prelude::*;

verus! {

/// Logical type of one column.
#[derive(Clone, Copy, PartialEq, Eq, Structural, Debug)]
pub enum ColumnType {
    /// A signed 64-bit integer, e.g. a millisecond timestamp.
    Int64,
    /// A fixed-precision measurement: millionths of the unit, in an i64.
    FixedMicro,
}

/// One column: a name and a logical type.
#[derive(Clone, Copy, Debug)]
pub struct ColumnDef {
    pub name: &'static str,
    pub ty: ColumnType,
}

/// An ordered, fixed column layout.
#[derive(Clone, Debug)]
pub struct SchemaDefinition {
    pub cols: Vec<ColumnDef>,
}

/// The tag byte that identifies a column type in an encoded batch.
pub open spec fn type_tag(t: ColumnType) -> u8 {
    match t {
        ColumnType::Int64 => 1u8,
        ColumnType::FixedMicro => 2u8,
    }
}

/// The sequence of tag bytes of a schema, in column order.
pub open spec fn schema_tags(s: SchemaDefinition) -> Seq<u8> {
    Seq::new(s.cols@.len(), |j: int| type_tag(s.cols@[j].ty))
}

impl SchemaDefinition {
    /// A schema is well formed when it has between 1 and 255 columns, so
    /// that the column count fits the single count byte of the encoding.
    pub open spec fn wf(&self) -> bool {
        1 <= self.cols@.len() <= 255
    }

    /// Number of columns.
    pub fn len(&self) -> (n: usize)
        ensures
            n == self.cols@.len(),
    {
        self.cols.len()
    }
}

/// Tag byte of a column type, as executable code.
pub fn tag_byte(t: ColumnType) -> (b: u8)
    ensures
        b == type_tag(t),
{
    match t {
        ColumnType::Int64 => 1u8,
        ColumnType::FixedMicro => 2u8,
    }
}

/// Tag bytes of the sensor schema: one Int64 timestamp column followed by
/// nine FixedMicro measurement columns.
pub open spec fn sensor_tags() -> Seq<u8> {
    seq![1u8, 2u8, 2u8, 2u8, 2u8, 2u8, 2u8, 2u8, 2u8, 2u8]
}

/// The fixed sensor-reading schema: a millisecond timestamp followed by the
/// nine measurement columns, in the stable order every reader relies on.
pub fn sensor_schema() -> (s: SchemaDefinition)
    ensures
        s.wf(),
        s.cols@.len() == 10,
        schema_tags(s) == sensor_tags(),
        s.cols@[0].name@ == "timestamp"@,
        s.cols@[1].name@ == "temperature"@,
        s.cols@[2].name@ == "humidity"@,
        s.cols@[3].name@ == "pressure"@,
        s.cols@[4].name@ == "pm1_0"@,
        s.cols@[5].name@ == "pm2_5"@,
        s.cols@[6].name@ == "pm10"@,
        s.cols@[7].name@ == "gas_resistance"@,
        s.cols@[8].name@ == "light"@,
        s.cols@[9].name@ == "noise"@,
{
    let mut cols: Vec<ColumnDef> = Vec::new();
    cols.push(ColumnDef { name: "timestamp", ty: ColumnType::Int64 });
    cols.push(ColumnDef { name: "temperature", ty: ColumnType::FixedMicro });
    cols.push(ColumnDef { name: "humidity", ty: ColumnType::FixedMicro });
    cols.push(ColumnDef { name: "pressure", ty: ColumnType::FixedMicro });
    cols.push(ColumnDef { name: "pm1_0", ty: ColumnType::FixedMicro });
    cols.push(ColumnDef { name: "pm2_5", ty: ColumnType::FixedMicro });
    cols.push(ColumnDef { name: "pm10", ty: ColumnType::FixedMicro });
    cols.push(ColumnDef { name: "gas_resistance", ty: ColumnType::FixedMicro });
    cols.push(ColumnDef { name: "light", ty: ColumnType::FixedMicro });
    cols.push(ColumnDef { name: "noise", ty: ColumnType::FixedMicro });
    let s = SchemaDefinition { cols };
    proof {
        assert(schema_tags(s) =~= sensor_tags());
    }
    s
}

} // verus!
