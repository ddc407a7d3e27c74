//! Verified core of a fleet-monitoring system: an agent that probes a host's
//! processes, logs, services and containers through validated commands, and a
//! control plane that keeps a registry of agents, authenticates operators and
//! classifies the liveness of each node.
//!
//! Everything that decides or computes lives here with a contract; process
//! invocation, file access and HTTP transport are left to the surrounding
//! application, which hands this library plain values.

pub mod agent_auth;
pub mod auth;
pub mod command;
pub mod config;
pub mod stats;
pub mod containers;
pub mod services;
pub mod text;
pub mod logs;
pub mod process;
pub mod proxy;
pub mod registry;
pub mod session;
pub mod validate;
