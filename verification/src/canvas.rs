pub mod coordinates;
pub mod tiles;
pub mod topology;
pub mod preview_state;
pub mod model;
