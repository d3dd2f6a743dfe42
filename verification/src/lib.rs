//! Symphony: a scheduler that reads issues from a tracker, gives each of them a
//! workspace of its own and drives coding-agent sessions inside those workspaces.

use vstd::prelude::*;

pub mod agent;
pub mod config;
pub mod documents;
pub mod eligibility;
pub mod env_loader;
pub mod guarantees;
pub mod http;
pub mod json;
pub mod keyed;
pub mod messages;
pub mod model;
pub mod normalization;
pub mod orchestrator;
pub mod paths;
pub mod prompt;
pub mod protocol;
pub mod ranking;
pub mod reconciliation;
pub mod retries;
pub mod runs;
pub mod settings;
pub mod template;
pub mod text;
pub mod tracker;
pub mod upkeep;
pub mod worker;
pub mod workflow;
pub mod workspace;
pub mod yaml;

pub use config::{ConfigManager, ServiceConfig};
pub use model::{BlockerRef, Issue};

verus! {

}
