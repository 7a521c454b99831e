//! Turn-based battle rules.

pub mod arith;
pub mod buffs;
pub mod chance;
pub mod config;
pub mod effect;
pub mod event;
pub mod fight;
pub mod fight_step;
pub mod laws;
pub mod lookup;
pub mod manager;
pub mod mechanics;
pub mod model;
pub mod operation;
pub mod seqs;
pub mod text;
