//! The forecast data that the library reads: one record per forecast hour.

use vstd::prelude::*;

verus! {

/// A chance of precipitation, in percent.
#[derive(Clone, Debug, PartialEq, Eq, Default)]
pub struct ProbabilityOfPrecipitation {
    pub unit_code: String,
    pub value: i64,
}

/// A relative humidity, in percent.
#[derive(Clone, Debug, PartialEq, Eq, Default)]
pub struct RelativeHumidity {
    pub unit_code: String,
    pub value: i64,
}

/// The vocabulary header of a forecast document.
#[derive(Clone, Debug, PartialEq, Eq, Default)]
pub struct Context {
    pub version: String,
    pub wx: String,
    pub geo: String,
    pub unit: String,
    pub vocab: String,
}

/// One forecast period. `start_time` and `end_time` are RFC 3339 timestamps
/// with a UTC offset; `temperature` is in degrees Fahrenheit; `wind_speed` is
/// a descriptor such as `"12 mph"`.
#[derive(Clone, Debug, PartialEq, Eq, Default)]
pub struct Period {
    pub number: i64,
    pub name: String,
    pub start_time: String,
    pub end_time: String,
    pub is_daytime: bool,
    pub temperature: i64,
    pub temperature_unit: String,
    pub probability_of_precipitation: ProbabilityOfPrecipitation,
    pub relative_humidity: RelativeHumidity,
    pub wind_speed: String,
    pub wind_direction: String,
    pub icon: String,
    pub short_forecast: String,
    pub detailed_forecast: String,
}

} // verus!
