//! The command router: operator input, emergency stop and autonomy strategies
//! become commands for the drive nodes.
pub mod api_client;
pub mod commands;
pub mod config;
pub mod proto;
pub mod proto_encoding;
pub mod robot_state;
pub mod router;
pub mod runs;
pub mod strategies;
