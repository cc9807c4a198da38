pub mod config_data;
pub mod data_structures;
