//! Cached, version-aware access to the MTGJSON dataset: the SQL builder and
//! searches, the dataset table, the view-adaptation planner and registry,
//! the normalisation of engine values, the cache's decisions, and the
//! booster-pack sampler.

pub mod text;
pub mod order;
pub mod sql_builder;
pub mod search;
pub mod config;
pub mod views;
pub mod registry;
pub mod value;
pub mod cache;
pub mod sampling;
pub mod booster;
pub mod error;
pub mod builder;
pub mod models;

pub use sql_builder::SqlBuilder;
pub use error::MtgjsonError;
pub use builder::{AsyncMtgjsonSdkBuilder, MtgjsonSdkBuilder};
