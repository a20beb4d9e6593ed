pub mod foreground;
pub mod sampler;
pub mod windows;
