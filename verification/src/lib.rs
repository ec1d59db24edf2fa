//! A local-first credential vault: authenticated encryption of secrets,
//! per-backend snapshots, and the write-through cache that keeps them
//! consistent under partial failure.

pub mod error;
pub mod crypto;
pub mod simple_crypto;
pub mod password;
pub mod text;
pub mod store;
pub mod config;
pub mod github;
pub mod backend;
pub mod generator;
pub mod manager;
