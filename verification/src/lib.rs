//! Task and tag management: validated value objects, the task and tag
//! aggregates with their domain events, task specifications, task
//! statistics, in-memory repositories, storage rows, command-line argument
//! parsing, and the text of the command-line views.

pub mod cli;
pub mod config;
pub mod display;
pub mod domain;
pub mod error;
pub mod persistence;
pub mod presentation;
pub mod repository;
pub mod tag;
pub mod text;
pub mod todo;
pub mod tui;
