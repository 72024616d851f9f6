//! The command line: the values its arguments parse into, the parsers
//! of the argument texts, keyword search, and the decisions of the task
//! commands.

pub mod args;
pub mod search;
pub mod task_handler;
