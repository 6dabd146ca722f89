//! Verified decision logic of the AIT local control plane: bounded projections,
//! permission ceilings, approval correlation and run lifecycle rules.


pub mod agents;
pub mod approvals;
pub mod archive;
pub mod branching;
pub mod catalog;
pub mod clock;
pub mod codex;
pub mod commands;
pub mod conversation;
pub mod crons;
pub mod errors;
pub mod events;
pub mod identity;
pub mod invocation;
pub mod json;
pub mod paths;
pub mod permissions;
pub mod progress;
pub mod projects;
pub mod resolution;
pub mod runs;
pub mod sessions;
pub mod storage;
pub mod settings;
pub mod text;
pub mod titles;
pub mod transfer;
