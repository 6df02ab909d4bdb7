//! The rows of the sensor-addressed tables and the data that a sensor sends.

use crate::clock::{now_stamp, Stamp};
use crate::humidity::Humidity;
use vstd::prelude::*;

verus! {

/// Record of the `Plant` table: the plant watched by sensor `sensor` of
/// the IoT device `iot`.
#[derive(Debug, PartialEq, Eq)]
pub struct Plant {
    pub iot: i64,
    pub sensor: i64,
    pub name: String,
}

impl Plant {
    /// A plant watched by sensor `sensor` of device `iot`.
    pub fn new(iot: i64, sensor: i64, name: &str) -> (plant: Plant)
        ensures
            plant.iot == iot,
            plant.sensor == sensor,
            plant.name@ == name@,
    {
        Plant { iot, sensor, name: name.to_owned() }
    }
}

impl Clone for Plant {
    fn clone(&self) -> (copy: Self)
        ensures
            copy == *self,
    {
        Plant { iot: self.iot, sensor: self.sensor, name: self.name.clone() }
    }
}

/// Record of the `Observation` table: a humidity reading of the plant named
/// `plant`, taken at `stamp`.
#[derive(Debug, PartialEq, Eq)]
pub struct Observation {
    pub id: i64,
    pub plant: String,
    pub humidity: Humidity,
    pub stamp: Stamp,
}

impl Observation {
    /// A reading of `plant` with the given id, humidity and stamp.
    pub fn stamped(id: i64, plant: &str, humidity: Humidity, stamp: Stamp) -> (observation: Observation)
        ensures
            observation.id == id,
            observation.plant@ == plant@,
            observation.humidity == humidity,
            observation.stamp == stamp,
    {
        Observation { id, plant: plant.to_owned(), humidity, stamp }
    }

    /// A reading of `plant` with the given id and humidity, stamped with
    /// the current time truncated to whole seconds: `Observation::stamped`
    /// applied to the clock reading of [`now_stamp`].
    pub fn new(id: i64, plant: &str, humidity: Humidity) -> (observation: Observation)
        ensures
            observation.id == id,
            observation.plant@ == plant@,
            observation.humidity == humidity,
    {
        Observation::stamped(id, plant, humidity, now_stamp())
    }
}

impl Clone for Observation {
    fn clone(&self) -> (copy: Self)
        ensures
            copy == *self,
    {
        Observation { id: self.id, plant: self.plant.clone(), humidity: self.humidity, stamp: self.stamp }
    }
}

/// Data which is sent by a sensor: device `id`, sensor `sensor`, reading
/// `humidity`.
#[derive(Debug, Clone, Copy, PartialEq, Eq)]
pub struct Measurement {
    pub id: i64,
    pub sensor: i64,
    pub humidity: Humidity,
}

} // verus!
