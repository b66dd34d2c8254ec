//! Data series: the sequences of elements that a chart draws for a set of
//! data points.

pub mod line_series;
