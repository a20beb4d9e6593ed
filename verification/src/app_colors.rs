pub mod registry;
pub mod str_map;
