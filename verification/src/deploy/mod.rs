//! Deployments: the queue of pending work and the steps of one run.

pub mod executor;
pub mod manager;
