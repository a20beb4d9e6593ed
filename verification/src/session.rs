pub mod engine;
pub mod error;
pub mod events;
pub mod model;
pub mod recovery;
pub mod shutdown;
pub mod simulation;
pub mod statistics;
pub mod snapshot;
pub mod publish;
pub mod controller;
pub mod export_activity;
pub mod engine_loop;
pub mod manifest;
