//! Chart helpers: the chart builder and how it splits the drawing area,
//! where mesh labels, tick marks and series labels go, how tick label areas
//! grow in a chart layout, the contexts of series drawn with tooltips, and the
//! coordinates, ticks and panels of 3D charts.

pub mod builder;
pub mod cartesian3d;
pub mod context;
pub mod layout;
pub mod series;
