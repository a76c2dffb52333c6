//! Finds the hours of an hourly weather forecast that are good for a bike
//! ride, joins back-to-back good hours into ranges, and renders them as a
//! short text message.

pub mod coalesce;
pub mod display;
pub mod forecast;
pub mod message;
pub mod retry;
pub mod suitability;
pub mod wind;
