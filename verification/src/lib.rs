//! Authorization policy engine: stored allow/deny rules at five scopes,
//! folded into one effective decision per request.

pub mod time;
pub mod roles;
pub mod policy;
pub mod equality;
pub mod text;
pub mod store;
pub mod policy_manager;
pub mod laws;
pub mod ranking;
pub mod error;
pub mod permissions;
pub mod choices;
pub mod util;
pub mod settings;
pub mod v2;
pub mod cooldowns;
pub mod chunks;
pub mod config;
