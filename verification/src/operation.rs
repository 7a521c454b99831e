//! What the two sides do in a round.

pub mod ai_executor;
pub mod parser;
