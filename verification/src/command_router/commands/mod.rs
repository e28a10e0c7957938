//! Commands: every action that the router can perform.
pub mod drive;
pub mod estop;

use std::collections::HashMap;

use vstd::prelude::*;

use crate::command_router::api_client::{ApiClient, ApiClientView, HttpRequest};
use crate::command_router::commands::drive::NodeCommand;
use crate::command_router::config::{copy_nodes, Config, DriveMode};
use crate::command_router::robot_state::RobotState;
use crate::json::JsonTree;
use crate::scalar::Scalar;

verus! {

/// What was last sent to a drive node.
///
/// A node takes set points only once its axis state and its controller mode are
/// set. Both are tracked, so that they are sent when they change and not
/// otherwise.
#[derive(Clone, Copy, Debug, PartialEq, Eq, Structural)]
pub struct NodeDriveState {
    pub axis_state: Option<u32>,
    pub control_mode: Option<u32>,
    pub input_mode: Option<u32>,
}

impl NodeDriveState {
    /// The state of a node to which nothing was sent.
    pub open spec fn fresh() -> NodeDriveState {
        NodeDriveState { axis_state: None, control_mode: None, input_mode: None }
    }
}

impl Default for NodeDriveState {
    fn default() -> (r: NodeDriveState)
        ensures
            r == NodeDriveState::fresh(),
    {
        NodeDriveState { axis_state: None, control_mode: None, input_mode: None }
    }
}

/// What every command works on.
pub struct CommandContext {
    pub api: ApiClient,
    /// The latest telemetry, for commands and strategies to read.
    pub state: RobotState,
    pub left_nodes: Vec<u8>,
    pub right_nodes: Vec<u8>,
    pub drive_mode: DriveMode,
    pub max_velocity: Scalar,
    pub max_torque: Scalar,
    /// What was last sent to each node.
    pub node_drive_state: HashMap<u8, NodeDriveState>,
}

/// The mathematical content of a [`CommandContext`].
pub struct CommandContextView {
    pub api: ApiClientView,
    pub state: Map<u8, JsonTree>,
    /// The time between two polls, in milliseconds.
    pub poll_ms: u64,
    pub left_nodes: Seq<u8>,
    pub right_nodes: Seq<u8>,
    pub drive_mode: DriveMode,
    pub max_velocity: Scalar,
    pub max_torque: Scalar,
    pub node_drive_state: Map<u8, NodeDriveState>,
}

impl View for CommandContext {
    type V = CommandContextView;

    open spec fn view(&self) -> CommandContextView {
        CommandContextView {
            api: self.api@,
            state: self.state@,
            poll_ms: self.state.period_ms(),
            left_nodes: self.left_nodes@,
            right_nodes: self.right_nodes@,
            drive_mode: self.drive_mode,
            max_velocity: self.max_velocity,
            max_torque: self.max_torque,
            node_drive_state: self.node_drive_state@,
        }
    }
}

impl CommandContextView {
    /// All nodes, those of the left side first.
    pub open spec fn nodes(self) -> Seq<u8> {
        self.left_nodes + self.right_nodes
    }

    /// What was last sent to `node`.
    pub open spec fn state_of(self, node: u8) -> NodeDriveState {
        if self.node_drive_state.contains_key(node) {
            self.node_drive_state[node]
        } else {
            NodeDriveState::fresh()
        }
    }

    /// The context in which nothing was sent to any node.
    pub open spec fn reset(self) -> CommandContextView {
        CommandContextView { node_drive_state: Map::empty(), ..self }
    }
}

impl CommandContext {
    /// The context for a robot, in which nothing was sent yet.
    pub fn new(config: &Config, api: ApiClient, state: RobotState) -> (r: CommandContext)
        ensures
            r@ == (CommandContextView {
                api: api@,
                state: state@,
                poll_ms: state.period_ms(),
                left_nodes: config.robot.left_nodes@,
                right_nodes: config.robot.right_nodes@,
                drive_mode: config.robot.drive_mode,
                max_velocity: config.robot.max_velocity,
                max_torque: config.robot.max_torque,
                node_drive_state: Map::empty(),
            }),
    {
        CommandContext {
            api,
            state,
            left_nodes: copy_nodes(&config.robot.left_nodes),
            right_nodes: copy_nodes(&config.robot.right_nodes),
            drive_mode: config.robot.drive_mode,
            max_velocity: config.robot.max_velocity,
            max_torque: config.robot.max_torque,
            node_drive_state: HashMap::new(),
        }
    }

    /// Forgets what was sent to the nodes, so that the next drive command sends
    /// axis state and modes again.
    pub fn reset_drive_state(&mut self)
        ensures
            final(self)@ == old(self)@.reset(),
    {
        self.node_drive_state.clear();
    }
}

/// Something that leaves the router.
#[derive(Debug)]
pub enum Outgoing {
    /// A drive command, to be written as JSON and sent through
    /// [`ApiClient::send_drive_udp`].
    Drive(NodeCommand),
    /// A request to the API.
    Http(HttpRequest),
}

/// An action of the router.
pub trait Command {
    /// What the command does: from a context to another one, with something sent.
    spec fn effect(
        &self,
        before: CommandContextView,
        after: CommandContextView,
        sent: Seq<Outgoing>,
    ) -> bool;

    /// Performs the action and hands out what is to be sent, in order.
    fn execute(&self, ctx: &mut CommandContext) -> (sent: Vec<Outgoing>)
        ensures
            self.effect(old(ctx)@, final(ctx)@, sent@),
    ;
}

} // verus!
