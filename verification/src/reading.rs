//! One sensor reading, its flattening to schema-ordered cells, and the
//! deterministic generator that produces a batch of readings.
//!
//! Every measurement is fixed-precision: an `i64` holding millionths of the
//! measured unit (so `20.0` degrees is stored as `20_000_000`).
use vstd::prelude::*;

verus! {

/// One row of time-series data: a millisecond timestamp and nine
/// fixed-precision measurements, each in millionths of its unit.
/// All fields are mandatory; a reading is immutable once constructed.
#[derive(Clone, Copy, PartialEq, Eq, Structural, Debug)]
pub struct SensorReading {
    /// Milliseconds since the Unix epoch.
    pub timestamp: i64,
    /// Degrees Celsius, in millionths.
    pub temperature: i64,
    /// Relative humidity percent, in millionths.
    pub humidity: i64,
    /// Hectopascal, in millionths.
    pub pressure: i64,
    /// Particulate matter up to 1.0 micrometers, microgram per cubic meter, in millionths.
    pub pm1_0: i64,
    /// Particulate matter up to 2.5 micrometers, microgram per cubic meter, in millionths.
    pub pm2_5: i64,
    /// Particulate matter up to 10 micrometers, microgram per cubic meter, in millionths.
    pub pm10: i64,
    /// Gas sensor resistance in ohms, in millionths.
    pub gas_resistance: i64,
    /// Illuminance in lux, in millionths.
    pub light: i64,
    /// Sound level in decibels, in millionths.
    pub noise: i64,
}

/// The cells of one reading, in the exact order of the sensor schema.
pub open spec fn reading_cells(r: SensorReading) -> Seq<i64> {
    seq![
        r.timestamp,
        r.temperature,
        r.humidity,
        r.pressure,
        r.pm1_0,
        r.pm2_5,
        r.pm10,
        r.gas_resistance,
        r.light,
        r.noise,
    ]
}

/// The reading whose cells, in sensor-schema order, are `c`.
pub open spec fn reading_of_cells(c: Seq<i64>) -> SensorReading
    recommends
        c.len() == 10,
{
    SensorReading {
        timestamp: c[0],
        temperature: c[1],
        humidity: c[2],
        pressure: c[3],
        pm1_0: c[4],
        pm2_5: c[5],
        pm10: c[6],
        gas_resistance: c[7],
        light: c[8],
        noise: c[9],
    }
}

/// Flattening a reading to cells and rebuilding it gives the reading back.
pub proof fn lemma_reading_cells_roundtrip(r: SensorReading)
    ensures
        reading_of_cells(reading_cells(r)) == r,
{
}

impl SensorReading {
    /// The cells of this reading, in sensor-schema order.
    pub fn to_cells(&self) -> (c: Vec<i64>)
        ensures
            c@ == reading_cells(*self),
    {
        let mut c: Vec<i64> = Vec::new();
        c.push(self.timestamp);
        c.push(self.temperature);
        c.push(self.humidity);
        c.push(self.pressure);
        c.push(self.pm1_0);
        c.push(self.pm2_5);
        c.push(self.pm10);
        c.push(self.gas_resistance);
        c.push(self.light);
        c.push(self.noise);
        proof {
            assert(c@ =~= reading_cells(*self));
        }
        c
    }

    /// Rebuilds a reading from schema-ordered cells; `None` when the cell
    /// count does not match the sensor schema.
    pub fn from_cells(c: &Vec<i64>) -> (r: Option<SensorReading>)
        ensures
            c@.len() == 10 ==> r == Some(reading_of_cells(c@)),
            c@.len() != 10 ==> r is None,
    {
        if c.len() != 10 {
            return None;
        }
        Some(SensorReading {
            timestamp: c[0],
            temperature: c[1],
            humidity: c[2],
            pressure: c[3],
            pm1_0: c[4],
            pm2_5: c[5],
            pm10: c[6],
            gas_resistance: c[7],
            light: c[8],
            noise: c[9],
        })
    }
}

/// The reading at position `i` of batch `batch`: timestamps start at the
/// batch's base instant and advance 5000 ms per row; each measurement
/// follows its own exact ramp or cycle.
pub open spec fn spec_reading(batch: int, i: int) -> SensorReading {
    SensorReading {
        timestamp: (1733270400000 + batch * 900000 + i * 5000) as i64,
        temperature: (20_000_000 + batch * 500_000 + i * 20_000) as i64,
        humidity: (45_000_000 + batch * 2_000_000 + i * 50_000) as i64,
        pressure: (1_013_250_000 + i * 10_000) as i64,
        pm1_0: (5_000_000 + (i % 10) * 100_000) as i64,
        pm2_5: (8_000_000 + (i % 15) * 200_000) as i64,
        pm10: (12_000_000 + (i % 20) * 300_000) as i64,
        gas_resistance: (50_000_000_000 + i * 100_000_000) as i64,
        light: (100_000_000 + i * 2_000_000) as i64,
        noise: (35_000_000 + (i % 10) * 500_000) as i64,
    }
}

/// Produces the deterministic readings of one batch: `rows` rows whose
/// base timestamp advances 900000 ms (15 minutes) per batch index.
pub fn generate_sensor_data(batch_index: u64, rows: usize) -> (r: Vec<SensorReading>)
    requires
        batch_index <= 1_000_000,
        rows <= 1_000_000,
    ensures
        r@.len() == rows,
        forall|i: int| 0 <= i < rows ==> r@[i] == spec_reading(batch_index as int, i),
{
    let b: i64 = batch_index as i64;
    let mut out: Vec<SensorReading> = Vec::new();
    let mut i: usize = 0;
    while i < rows
        invariant
            i <= rows,
            rows <= 1_000_000,
            0 <= b <= 1_000_000,
            b == batch_index,
            out@.len() == i,
            forall|k: int| 0 <= k < i ==> out@[k] == spec_reading(b as int, k),
        decreases rows - i,
    {
        let n: i64 = i as i64;
        out.push(SensorReading {
            timestamp: 1733270400000 + b * 900000 + n * 5000,
            temperature: 20_000_000 + b * 500_000 + n * 20_000,
            humidity: 45_000_000 + b * 2_000_000 + n * 50_000,
            pressure: 1_013_250_000 + n * 10_000,
            pm1_0: 5_000_000 + (n % 10) * 100_000,
            pm2_5: 8_000_000 + (n % 15) * 200_000,
            pm10: 12_000_000 + (n % 20) * 300_000,
            gas_resistance: 50_000_000_000 + n * 100_000_000,
            light: 100_000_000 + n * 2_000_000,
            noise: 35_000_000 + (n % 10) * 500_000,
        });
        i = i + 1;
    }
    out
}

} // verus!
