//! Effects and steps as they are built and sent.

pub mod builder;
pub mod select;
pub mod steps;
