//! The control interface: glue between teleoperation, the inverse kinematics
//! engine and the driver of the arm.
pub mod config;
pub mod ik_link;
pub mod kinova;
pub mod report;
pub mod state;
pub mod teleop;
