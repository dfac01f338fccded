//! The cleanup history: its rows, what is written to it and what is read from
//! it.

pub mod columns;
pub mod laws;
pub mod migration;
pub mod order;
pub mod periods;
pub mod query;
pub mod ranking;
pub mod result;
pub mod rows;
pub mod store;
pub mod tally;
