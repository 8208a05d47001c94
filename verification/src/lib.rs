use vstd::prelude::*;

pub mod env_file;
pub mod error;
pub mod glob;
pub mod text;
pub mod json;
pub mod config;
pub mod cli_error;
pub mod find;
pub mod search;
pub mod sorted;
pub mod source_roots;
pub mod model;
pub mod qdrant;
pub mod api_error;
pub mod query_assets;
pub mod provider;
pub mod persistence;
pub mod ranking;
pub mod serve;
pub mod client;
pub mod web;
pub mod envelope;
pub mod jobs;
pub mod library;
pub mod import;
pub mod status;
pub mod queries;
pub mod sources;
pub mod sidecar;
pub mod requests;
pub mod query_uploads;
pub mod indexing;
pub mod snapshot_load;
pub mod snapshot_store;
pub mod unit_order;
pub mod shared_load;
pub mod locations;
pub mod overlay;
pub mod asset_units;
pub mod job_runs;
pub mod config_laws;
pub mod search_debug;

verus! {

} // verus!
