pub mod model;
pub mod storage;
