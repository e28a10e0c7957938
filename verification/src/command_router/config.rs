//! The settings of the command router.
use vstd::prelude::*;

use crate::scalar::Scalar;

verus! {

/// ODrive control mode for the tracks.
#[derive(Clone, Copy, Debug, PartialEq, Eq, Structural)]
pub enum DriveMode {
    Velocity,
    Torque,
}

#[derive(Debug)]
pub struct Config {
    pub api: ApiConfig,
    pub endpoints: EndpointConfig,
    pub strategies: StrategyConfig,
    pub robot: RobotConfig,
}

#[derive(Debug)]
pub struct ApiConfig {
    pub host: String,
    pub http_port: u16,
}

#[derive(Debug)]
pub struct EndpointConfig {
    pub estop_port: u16,
    pub control_port: u16,
}

#[derive(Debug)]
pub struct StrategyConfig {
    pub base_port: u16,
}

#[derive(Debug)]
pub struct RobotConfig {
    pub left_nodes: Vec<u8>,
    pub right_nodes: Vec<u8>,
    pub drive_mode: DriveMode,
    pub max_velocity: Scalar,
    pub max_torque: Scalar,
    pub command_interval_ms: u64,
}

/// Whether `nodes` holds `node`.
pub fn holds_node(nodes: &Vec<u8>, node: u8) -> (r: bool)
    ensures
        r == nodes@.contains(node),
{
    for i in 0..nodes.len()
        invariant
            forall|j: int| 0 <= j < i ==> nodes@[j] != node,
    {
        if nodes[i] == node {
            assert(nodes@[i as int] == node);
            return true;
        }
    }
    false
}

/// A copy of a list of nodes.
pub fn copy_nodes(nodes: &Vec<u8>) -> (r: Vec<u8>)
    ensures
        r@ == nodes@,
{
    vstd::slice::slice_to_vec(nodes.as_slice())
}

/// The nodes of both lists, those of `left` first.
pub fn join_nodes(left: &Vec<u8>, right: &Vec<u8>) -> (r: Vec<u8>)
    ensures
        r@ == left@ + right@,
{
    let mut out = copy_nodes(left);
    out.extend_from_slice(right.as_slice());
    assert(out@ =~= left@ + right@);
    out
}

impl Config {
    /// All drive nodes, those of the left side first.
    pub fn all_nodes(&self) -> (r: Vec<u8>)
        ensures
            r@ == self.robot.left_nodes@ + self.robot.right_nodes@,
    {
        join_nodes(&self.robot.left_nodes, &self.robot.right_nodes)
    }
}

} // verus!
