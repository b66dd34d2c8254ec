//! Colors, color maps, fonts and the wrappers of rendered figures.

pub mod color;
pub mod colormaps;
pub mod evcxr;
pub mod font;
