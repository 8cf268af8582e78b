pub mod arch_map;
pub mod config;
pub mod constants;
pub mod select;
pub mod utils;
