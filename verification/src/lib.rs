//! Verified core of a package-management backend: transaction orchestration,
//! commit triage, input validation and the text handling they rest on.

pub mod cache;
pub mod callbacks;
pub mod cancel;
pub mod commit;
pub mod config;
pub mod deptree;
pub mod downgrade;
pub mod engine;
pub mod errors;
pub mod events;
pub mod history;
pub mod keyring;
pub mod listing;
pub mod mirrors;
pub mod news;
pub mod orphans;
pub mod preflight;
pub mod protocol;
pub mod query;
pub mod questions;
pub mod reboot;
pub mod scheduled;
pub mod sync;
pub mod text;
pub mod transaction;
pub mod upgrade;
pub mod validation;
