//! Provider management for the Codex CLI: picking, filtering and activating
//! model providers, resolving their credentials, composing skill catalogs and
//! small model-name helpers, each stated and proved with Verus.

pub mod activation;
pub mod auth;
pub mod catalog;
pub mod compose;
pub mod compose_assets;
pub mod config;
pub mod json;
pub mod model_helpers;
pub mod paths;
pub mod text;
pub mod picker;
pub mod presets;
pub mod providers;
