//! Verified core of a Kubernetes desktop client.
pub mod actions;
pub mod backend;
pub mod config;
pub mod containers;
pub mod crd;
pub mod detail;
pub mod dashboard;
pub mod error;
pub mod events;
mod filters;
pub mod labels;
pub mod log_tabs;
pub mod metrics;
pub mod ops;
pub mod panels;
pub mod paths;
pub mod plugins;
pub mod portforward;
pub mod resources;
pub mod rows;
pub mod scope_cache;
pub mod settings;
pub mod store;
pub mod text;
pub mod window;
pub mod worker;
pub mod workspace;
