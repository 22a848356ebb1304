//! Window focus time tracking: the verified core of the tracker.
pub mod text;
pub mod render;
pub mod order;
pub mod names;
pub mod paths;
pub mod desktop;
pub mod analyze;
pub mod browse;
pub mod dates;
pub mod usage;
pub mod daemon;
pub mod ipc;
pub mod idle;
pub mod tracker;
pub mod config;
pub mod cli;
