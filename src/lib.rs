//! Schema migrations: diff a desired schema against the current one, order the
//! steps by their dependencies, classify each by risk, and decide under an
//! explicit confirmation contract whether the plan runs.

pub mod text;
pub mod schema;
pub mod step;
pub mod differ;
pub mod orderer;
pub mod references;
pub mod classifier;
pub mod push;
pub mod applier;
pub mod apply_script;
pub mod logger;
pub mod dialect;
pub mod postgres;
pub mod round_trip;
pub mod laws;
