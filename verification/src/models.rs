//! Records kept in the garden database.

use vstd::prelude::*;

verus! {

/// A watering schedule: at `hour`:`minute` every day, water for
/// `watering_minute` minutes and `watering_second` seconds.
#[derive(Debug, Clone, Copy, PartialEq, Eq, Structural)]
pub struct Schedule {
    pub id: i32,
    pub hour: i32,
    pub minute: i32,
    pub watering_minute: i32,
    pub watering_second: i32,
}

/// A registered moisture sensor.
#[derive(Debug)]
pub struct Sensor {
    pub id: i32,
    pub serial_number: String,
}

/// One moisture reading.
#[derive(Debug, Clone, Copy, PartialEq, Eq, Structural)]
pub struct SensorData {
    pub id: i32,
    pub moisture: i32,
}

} // verus!
