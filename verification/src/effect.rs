//! What skills do, and when.

pub mod behavior;
pub mod condition;
pub mod parser;
pub mod slot;
