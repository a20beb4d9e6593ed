pub mod display_identity;
pub mod monitor_identification;
pub mod display;
pub mod open_path;
