//! Text formatting for the command-line views.

pub mod format;
pub mod stats_dto;
pub mod stats_table;
pub mod table;
pub mod task_table;
pub mod sections;
