//! Backup engine for remote media assets: listing, reconciliation against a
//! local index, download bookkeeping and progress accounting.

pub mod asset;
pub mod checksum;
pub mod columns;
pub mod context;
pub mod credentials;
pub mod error;
pub mod index;
pub mod json;
pub mod laws;
pub mod orchestrator;
pub mod photo;
pub mod progress;
pub mod reconcile;
pub mod remote;
pub mod rows;
pub mod run_laws;
pub mod run_model;
pub mod session;
pub mod stats;
pub mod tags;
pub mod text;
