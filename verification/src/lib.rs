//! Verified core of a terminal chat client for a coding agent.

pub mod text;
pub mod agent;
pub mod app;
pub mod ui;
