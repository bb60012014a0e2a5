//! The display model: a query as the user typed it, and a report as parsed
//! from the provider's response. Every metric is stored as a signed count
//! of tenths of its unit.

use vstd::prelude::*;

verus! {

/// A user-supplied query: a city name and a country code.
#[derive(Debug, PartialEq, Eq)]
pub struct WeatherQuery {
    pub city: String,
    pub country_code: String,
}

/// One weather phenomenon, described by a free-text phrase from the
/// provider's vocabulary.
#[derive(Debug, PartialEq, Eq)]
pub struct Condition {
    pub description: String,
}

/// The numeric readings of a report, in tenths of their units.
#[derive(Clone, Copy, Debug, PartialEq, Eq, Structural)]
pub struct Metrics {
    /// Temperature in tenths of a degree Celsius.
    pub temperature_tenths: i64,
    /// Relative humidity in tenths of a percent.
    pub humidity_tenths: i64,
    /// Pressure in tenths of a hectopascal.
    pub pressure_tenths: i64,
}

/// Wind readings of a report, in tenths of their units.
#[derive(Clone, Copy, Debug, PartialEq, Eq, Structural)]
pub struct Wind {
    /// Wind speed in tenths of a metre per second.
    pub speed_tenths: i64,
}

/// A parsed weather report: the ordered conditions, the numeric readings,
/// and the canonical location name returned by the provider.
#[derive(Debug, PartialEq, Eq)]
pub struct WeatherReport {
    pub conditions: Vec<Condition>,
    pub metrics: Metrics,
    pub wind: Wind,
    pub location_name: String,
}

} // verus!
