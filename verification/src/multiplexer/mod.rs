//! The UDP multiplexer: several inputs with priorities, one stream out.
pub mod app_config;
pub mod models;
pub mod proto_registry;
pub mod selector;
pub mod telemetry;
pub mod test_support;
