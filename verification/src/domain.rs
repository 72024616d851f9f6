//! The domain layer: value objects, aggregates, events, specifications,
//! statistics and repositories.

pub mod aggregate;
pub mod clock;
pub mod completion;
pub mod date;
pub mod events;
pub mod repository;
pub mod specification;
pub mod statistics;
pub mod stats;
pub mod tag;
pub mod tag_repository;
pub mod task;
