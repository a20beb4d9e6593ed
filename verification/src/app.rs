pub mod action_policy;
pub mod commands;
pub mod dialogs;
pub mod lifecycle;
pub mod state;
pub mod engine_bridge;
