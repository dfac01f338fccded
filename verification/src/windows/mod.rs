//! The windows: what they show, and where.

pub mod about;
pub mod elements;
pub mod layout;
pub mod result;
pub mod statistics;
pub mod summary;
pub mod telling;
