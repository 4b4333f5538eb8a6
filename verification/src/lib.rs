//! A permission policy engine for dynamically loaded plugins.
//!
//! Plugins declare the capabilities they want; the engine keeps one policy
//! per plugin, a set of process-wide constraints, and answers for each
//! concrete use of a capability whether it is permitted right now.

pub mod text;
pub mod capability;
pub mod plugin_id;
pub mod constraints;
pub mod policy;
pub mod decision;
pub mod logger;
pub mod audit;
pub mod checker;
pub mod laws;
pub mod greeting;
pub mod manifest;
pub mod manager;
