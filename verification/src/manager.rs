//! The state that a battle keeps between its steps.

pub mod active_effect_mgr;
pub mod attr_bonus;
pub mod calculate_mgr;
pub mod cloth_mgr;
pub mod entity_mgr;
pub mod fight_data_mgr;
pub mod passive_mgr;
pub mod play_order;
pub mod replay;
pub mod rule_mgr;
pub mod traits;
pub mod wave_mgr;
