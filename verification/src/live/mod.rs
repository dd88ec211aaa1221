pub mod buff_flags;
pub mod buff_names;
pub mod cast_log;
pub mod clock;
pub mod utils;
pub mod effect_info;
pub mod effect_maps;
pub mod effect_order;
pub mod effect_select;
pub mod id_map;
pub mod skill_maps;
pub mod skill_tracker;
pub mod player_stats;
pub mod processor;
pub mod rdps;
pub mod region;
pub mod stats_api;
pub mod status_build;
pub mod status_tracker;
