//! MultiMouseCanvas core library: the recording lifecycle, action policy,
//! colour rules, tile storage, display identity and naming rules, each with a
//! machine-checked contract.
pub mod app;
pub mod app_colors;
pub mod canvas;
pub mod capture;
pub mod clock;
pub mod display_profiles;
pub mod export;
pub mod ipc;
pub mod keyed;
pub mod logging;
pub mod platform;
pub mod session;
pub mod settings;
pub mod text;
pub mod tray;
