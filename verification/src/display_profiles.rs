pub mod model;
pub mod store;
