//! Plain implementations of schemas, relations and tuples, held in memory.

pub mod data;
pub mod sort;
