//! Storage rows and their mapping to and from the domain aggregates.

pub mod mapper;
