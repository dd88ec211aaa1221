pub mod entity;
pub mod player;
pub mod stats;
pub mod dps;
pub mod data;
pub mod skill;
pub mod misc;
pub mod status_effect;
pub mod external;
pub mod tables;
