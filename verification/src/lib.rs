//! Verified state logic of the knotra multi-repository dashboard.

pub mod config;
pub mod history;
pub mod message;
pub mod model;
pub mod state;
pub mod text;
