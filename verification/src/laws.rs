//! What the library promises as a whole, stated over what its functions take and give.

pub mod behaviours;
pub mod casts;
pub mod channels;
pub mod circles;
pub mod conditions;
pub mod enemies;
pub mod events;
pub mod fighters;
pub mod followups;
pub mod hands;
pub mod hits;
pub mod injuries;
pub mod losses;
pub mod numbers;
pub mod play;
pub mod poison;
pub mod readings;
pub mod replays;
pub mod skills;
pub mod steps;
pub mod tables;
pub mod waves;
