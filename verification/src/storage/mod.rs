//! The local database: its rows, the statements a sync writes, and the
//! shaping of what queries return.

pub mod rows;
pub mod sync_plan;
pub mod queries;
pub mod reactions;
