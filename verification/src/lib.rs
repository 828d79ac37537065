//! Telescope: scaffolding, run planning, judging and reporting for LLM
//! evaluation workspaces.

pub mod error;
pub mod text;
pub mod gitignore;
pub mod calendar;
pub mod clock;
pub mod model;
pub mod plan;
pub mod storage;
pub mod engine;
pub mod gateway;
pub mod commands;
pub mod scaffold;

pub use commands::init;
pub use storage::InitReport;
