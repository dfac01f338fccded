//! The settings and the window in which they are changed.

pub mod laws;
pub mod meaning;
pub mod screen;
pub mod values;
