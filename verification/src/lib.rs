//! The control plane of the rove robot: the command router, the glue to its
//! arm, and the UDP multiplexer in front of both.
pub mod command_router;
pub mod control_interface;
pub mod encode;
pub mod frame;
pub mod json;
pub mod multiplexer;
pub mod scalar;
pub mod text;
pub mod wire;
