pub mod image_export;
pub mod model;
pub mod overlays;
