//! Automated deployment service: the verified core.
//!
//! The library holds the decisions of the deployment service: configuration
//! merging, version comparison, webhook authentication, the deployment queue
//! and the step sequence of a deployment run.

pub mod cli;
pub mod config;
pub mod database;
pub mod deploy;
pub mod error;
pub mod git;
pub mod installer;
pub mod project_config;
pub mod self_update;
pub mod text;
pub mod webhook;
pub mod web_ui;
pub mod websocket;
