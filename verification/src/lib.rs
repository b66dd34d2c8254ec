//! Coordinate systems, axis specifications, data series and layout helpers
//! for charts, with their behaviour stated as Verus contracts.

pub mod chart;
pub mod coord;
pub mod series;
pub mod style;

