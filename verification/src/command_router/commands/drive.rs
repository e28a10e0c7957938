//! Drive commands: set points become commands for the single nodes.
//!
//! - the axis state (closed loop control) is sent first, and after a reset;
//! - control mode and input mode are sent when they change;
//! - the set point is sent every time.
use vstd::prelude::*;

use crate::command_router::commands::{
    Command, CommandContext, CommandContextView, NodeDriveState, Outgoing,
};
use crate::command_router::config::{holds_node, join_nodes, DriveMode};
use crate::scalar::Scalar;

verus! {

broadcast use vstd::std_specs::hash::group_hash_axioms;

pub const AXIS_CLOSED_LOOP: u32 = 8;

pub const CTRL_VELOCITY: u32 = 2;

pub const CTRL_TORQUE: u32 = 1;

pub const INPUT_PASSTHROUGH: u32 = 1;

/// Sends absolute set points to the tracks: rev/s in velocity mode, Nm in
/// torque mode. The right side is mounted mirrored and gets the other sign.
#[derive(Clone, Copy, Debug, PartialEq, Eq, Structural)]
pub struct DriveCommand {
    pub left: Scalar,
    pub right: Scalar,
}

/// Sends set points of -1 to 1, scaled by the limit of the drive mode.
#[derive(Clone, Copy, Debug, PartialEq, Eq, Structural)]
pub struct NormalizedDriveCommand {
    pub left_norm: Scalar,
    pub right_norm: Scalar,
}

/// The command to one node.
#[derive(Clone, Copy, Debug, PartialEq, Eq, Structural)]
pub struct NodeCommand {
    pub node_id: u8,
    pub axis_state: Option<u32>,
    pub control_mode: Option<u32>,
    pub input_mode: Option<u32>,
    pub mode: DriveMode,
    pub setpoint: Scalar,
}

/// A field of a command other than its set point.
#[derive(Clone, Copy, Debug)]
pub struct Setting {
    pub name: &'static str,
    pub value: u32,
}

/// The names and values of settings.
pub open spec fn setting_views(settings: Seq<Setting>) -> Seq<(Seq<char>, u32)> {
    Seq::new(settings.len(), |i: int| (settings[i].name@, settings[i].value))
}

/// A setting, where there is one.
pub open spec fn setting(name: Seq<char>, value: Option<u32>) -> Seq<(Seq<char>, u32)> {
    match value {
        Some(v) => seq![(name, v)],
        None => Seq::empty(),
    }
}

/// The control mode of a drive mode.
pub open spec fn control_mode_of(mode: DriveMode) -> u32 {
    match mode {
        DriveMode::Velocity => CTRL_VELOCITY,
        DriveMode::Torque => CTRL_TORQUE,
    }
}

/// The name of the set point in a drive mode.
pub open spec fn setpoint_name(mode: DriveMode) -> Seq<char> {
    match mode {
        DriveMode::Velocity => "input_vel"@,
        DriveMode::Torque => "input_torque"@,
    }
}

/// The state of a node that got a command.
pub open spec fn settled(mode: DriveMode) -> NodeDriveState {
    NodeDriveState {
        axis_state: Some(AXIS_CLOSED_LOOP),
        control_mode: Some(control_mode_of(mode)),
        input_mode: Some(INPUT_PASSTHROUGH),
    }
}

/// The command that takes a node from `state` to [`settled`] and gives it a set
/// point.
pub open spec fn node_command(
    node_id: u8,
    state: NodeDriveState,
    mode: DriveMode,
    setpoint: Scalar,
) -> NodeCommand {
    let same_modes = state.control_mode == Some(control_mode_of(mode)) && state.input_mode == Some(
        INPUT_PASSTHROUGH,
    );
    NodeCommand {
        node_id,
        axis_state: if state.axis_state == Some(AXIS_CLOSED_LOOP) {
            None
        } else {
            Some(AXIS_CLOSED_LOOP)
        },
        control_mode: if same_modes {
            None
        } else {
            Some(control_mode_of(mode))
        },
        input_mode: if same_modes {
            None
        } else {
            Some(INPUT_PASSTHROUGH)
        },
        mode,
        setpoint,
    }
}

impl CommandContextView {
    /// What was sent to the node in place `i` before its turn in a drive command
    /// comes: a node may stand in the lists more than once.
    pub open spec fn state_at(self, i: int) -> NodeDriveState {
        if self.nodes().take(i).contains(self.nodes()[i]) {
            settled(self.drive_mode)
        } else {
            self.state_of(self.nodes()[i])
        }
    }

    /// The context once every node got a command.
    pub open spec fn driven(self) -> CommandContextView {
        CommandContextView {
            node_drive_state: Map::new(
                |n: u8| self.node_drive_state.contains_key(n) || self.nodes().contains(n),
                |n: u8|
                    if self.nodes().contains(n) {
                        settled(self.drive_mode)
                    } else {
                        self.node_drive_state[n]
                    },
            ),
            ..self
        }
    }

    /// The limit of the drive mode.
    pub open spec fn full_scale(self) -> Scalar {
        match self.drive_mode {
            DriveMode::Velocity => self.max_velocity,
            DriveMode::Torque => self.max_torque,
        }
    }
}

impl DriveCommand {
    /// The set point of a node. One that stands on both sides counts as left.
    pub open spec fn setpoint(self, ctx: CommandContextView, node: u8) -> Scalar {
        if ctx.left_nodes.contains(node) {
            self.left
        } else {
            self.right.negative()
        }
    }

    /// The command in place `i`.
    pub open spec fn command_at(self, ctx: CommandContextView, i: int) -> NodeCommand {
        node_command(
            ctx.nodes()[i],
            ctx.state_at(i),
            ctx.drive_mode,
            self.setpoint(ctx, ctx.nodes()[i]),
        )
    }
}

impl NodeCommand {
    /// The fields of the command other than its set point.
    pub fn settings(&self) -> (r: Vec<Setting>)
        ensures
            setting_views(r@) == setting("axis_state"@, self.axis_state) + setting(
                "control_mode"@,
                self.control_mode,
            ) + setting("input_mode"@, self.input_mode),
    {
        let mut out: Vec<Setting> = Vec::new();
        if let Some(value) = self.axis_state {
            out.push(Setting { name: "axis_state", value });
        }
        if let Some(value) = self.control_mode {
            out.push(Setting { name: "control_mode", value });
        }
        if let Some(value) = self.input_mode {
            out.push(Setting { name: "input_mode", value });
        }
        assert(setting_views(out@) =~= setting("axis_state"@, self.axis_state) + setting(
            "control_mode"@,
            self.control_mode,
        ) + setting("input_mode"@, self.input_mode));
        out
    }

    /// The name of the set point.
    pub fn input_key(&self) -> (r: &'static str)
        ensures
            r@ == setpoint_name(self.mode),
    {
        match self.mode {
            DriveMode::Velocity => "input_vel",
            DriveMode::Torque => "input_torque",
        }
    }
}

impl NormalizedDriveCommand {
    /// What a set point of 1 stands for in the configured drive mode.
    pub fn scale(&self, ctx: &CommandContext) -> (r: Scalar)
        ensures
            r == ctx@.full_scale(),
    {
        match ctx.drive_mode {
            DriveMode::Velocity => ctx.max_velocity,
            DriveMode::Torque => ctx.max_torque,
        }
    }
}

impl Command for DriveCommand {
    open spec fn effect(
        &self,
        before: CommandContextView,
        after: CommandContextView,
        sent: Seq<Outgoing>,
    ) -> bool {
        &&& after == before.driven()
        &&& sent == Seq::new(
            before.nodes().len(),
            |i: int| Outgoing::Drive(self.command_at(before, i)),
        )
    }

    fn execute(&self, ctx: &mut CommandContext) -> (sent: Vec<Outgoing>) {
        let ghost before = ctx@;
        let mode = ctx.drive_mode;
        let control_mode = match mode {
            DriveMode::Velocity => CTRL_VELOCITY,
            DriveMode::Torque => CTRL_TORQUE,
        };
        let nodes = join_nodes(&ctx.left_nodes, &ctx.right_nodes);
        let mut sent: Vec<Outgoing> = Vec::new();
        for i in 0..nodes.len()
            invariant
                nodes@ == before.nodes(),
                mode == before.drive_mode,
                control_mode == control_mode_of(mode),
                sent@ =~= Seq::new(
                    i as nat,
                    |j: int| Outgoing::Drive(self.command_at(before, j)),
                ),
                ctx@ == (CommandContextView { node_drive_state: ctx.node_drive_state@, ..before }),
                forall|n: u8| #[trigger]
                    ctx.node_drive_state@.contains_key(n) <==> before.node_drive_state.contains_key(
                        n,
                    ) || nodes@.take(i as int).contains(n),
                forall|n: u8| #[trigger]
                    ctx.node_drive_state@.contains_key(n) ==> ctx.node_drive_state@[n] == if nodes@.take(
                        i as int,
                    ).contains(n) {
                        settled(mode)
                    } else {
                        before.node_drive_state[n]
                    },
        {
            let node = nodes[i];
            let setpoint = if holds_node(&ctx.left_nodes, node) {
                self.left
            } else {
                self.right.negated()
            };
            let mut state = match ctx.node_drive_state.get(&node) {
                Some(state) => *state,
                None => NodeDriveState::default(),
            };
            assert(state == before.state_at(i as int));
            let mut command = NodeCommand {
                node_id: node,
                axis_state: None,
                control_mode: None,
                input_mode: None,
                mode,
                setpoint,
            };
            if state.axis_state != Some(AXIS_CLOSED_LOOP) {
                command.axis_state = Some(AXIS_CLOSED_LOOP);
                state.axis_state = Some(AXIS_CLOSED_LOOP);
            }
            if state.control_mode != Some(control_mode) || state.input_mode != Some(
                INPUT_PASSTHROUGH,
            ) {
                command.control_mode = Some(control_mode);
                command.input_mode = Some(INPUT_PASSTHROUGH);
                state.control_mode = Some(control_mode);
                state.input_mode = Some(INPUT_PASSTHROUGH);
            }
            ctx.node_drive_state.insert(node, state);
            sent.push(Outgoing::Drive(command));
            proof {
                assert(nodes@.take(i + 1) =~= nodes@.take(i as int).push(node));
                assert forall|n: u8| #[trigger] nodes@.take(i + 1).contains(n) <==> nodes@.take(
                    i as int,
                ).contains(n) || n == node by {
                    let t = nodes@.take(i as int);
                    if t.contains(n) {
                        let k = choose|k: int| 0 <= k < t.len() && t[k] == n;
                        assert(t.push(node)[k] == n);
                    }
                    if n == node {
                        assert(t.push(node)[t.len() as int] == n);
                    }
                }
            }
        }
        assert(nodes@.take(nodes@.len() as int) =~= nodes@);
        assert(ctx.node_drive_state@ =~= before.driven().node_drive_state);
        sent
    }
}

/// After a reset, the first command to each node sets up its axis state and
/// both modes.
pub proof fn drive_after_reset_sets_up_nodes(cmd: DriveCommand, ctx: CommandContextView, i: int)
    requires
        0 <= i < ctx.nodes().len(),
        !ctx.nodes().take(i).contains(ctx.nodes()[i]),
    ensures
        cmd.command_at(ctx.reset(), i).axis_state == Some(AXIS_CLOSED_LOOP),
        cmd.command_at(ctx.reset(), i).control_mode == Some(control_mode_of(ctx.drive_mode)),
        cmd.command_at(ctx.reset(), i).input_mode == Some(INPUT_PASSTHROUGH),
{
}

/// Behind a drive command, another one carries set points and nothing else.
pub proof fn drive_after_drive_sends_set_points(cmd: DriveCommand, ctx: CommandContextView, i: int)
    requires
        0 <= i < ctx.nodes().len(),
    ensures
        cmd.command_at(ctx.driven(), i) == (NodeCommand {
            node_id: ctx.nodes()[i],
            axis_state: None,
            control_mode: None,
            input_mode: None,
            mode: ctx.drive_mode,
            setpoint: cmd.setpoint(ctx, ctx.nodes()[i]),
        }),
{
    assert(ctx.driven().nodes() == ctx.nodes());
    assert(ctx.nodes().contains(ctx.nodes()[i]));
}

/// A drive command leaves behind what a second one would.
pub proof fn driving_twice_tracks_the_same(ctx: CommandContextView)
    ensures
        ctx.driven().driven() == ctx.driven(),
{
    assert(ctx.driven().nodes() == ctx.nodes());
    assert(ctx.driven().driven().node_drive_state =~= ctx.driven().node_drive_state);
}

/// A drive command sends one command to every node, those of the left side first
/// and each in the order of its list. A node of the left side gets the left set
/// point, bit for bit. Every other one gets the right set point with the other
/// sign: as wide, with the same magnitude, and with the sign bit flipped.
pub proof fn nodes_get_the_set_point_of_their_side(
    cmd: DriveCommand,
    before: CommandContextView,
    after: CommandContextView,
    sent: Seq<Outgoing>,
    i: int,
)
    requires
        cmd.effect(before, after, sent),
        0 <= i < before.left_nodes.len() + before.right_nodes.len(),
    ensures
        sent.len() == before.left_nodes.len() + before.right_nodes.len(),
        sent[i] matches Outgoing::Drive(c) && {
            &&& c.node_id == if i < before.left_nodes.len() {
                before.left_nodes[i]
            } else {
                before.right_nodes[i - before.left_nodes.len()]
            }
            &&& c.mode == before.drive_mode
            &&& before.left_nodes.contains(c.node_id) ==> c.setpoint == cmd.left
            &&& !before.left_nodes.contains(c.node_id) ==> match (cmd.right, c.setpoint) {
                (Scalar::Single(a), Scalar::Single(b)) => a % 0x8000_0000 == b % 0x8000_0000 && a
                    != b,
                (Scalar::Double(a), Scalar::Double(b)) => a % 0x8000_0000_0000_0000 == b
                    % 0x8000_0000_0000_0000 && a != b,
                _ => false,
            }
        },
{
    crate::scalar::negation_changes_the_sign_alone(cmd.right);
}

/// What a drive command carries besides the set point: closed loop control (8),
/// unless that is what the node was last sent, and control mode (2 for velocity, 1
/// for torque) together with input mode (1), unless both are. A node that stands in
/// the lists before has been sent all of it.
pub proof fn nodes_are_set_up_where_it_is_needed(
    cmd: DriveCommand,
    before: CommandContextView,
    after: CommandContextView,
    sent: Seq<Outgoing>,
    i: int,
)
    requires
        cmd.effect(before, after, sent),
        0 <= i < before.left_nodes.len() + before.right_nodes.len(),
    ensures
        ({
            let nodes = before.left_nodes + before.right_nodes;
            let repeated = nodes.take(i).contains(nodes[i]);
            let known = before.node_drive_state.contains_key(nodes[i]);
            let last = before.node_drive_state[nodes[i]];
            let mode: u32 = if before.drive_mode == DriveMode::Velocity {
                2
            } else {
                1
            };
            let same_axis = repeated || (known && last.axis_state == Some(8u32));
            let same_modes = repeated || (known && last.control_mode == Some(mode)
                && last.input_mode == Some(1u32));
            sent[i] matches Outgoing::Drive(c) && {
                &&& c.axis_state == if same_axis {
                    None
                } else {
                    Some(8u32)
                }
                &&& c.control_mode == if same_modes {
                    None
                } else {
                    Some(mode)
                }
                &&& c.input_mode == if same_modes {
                    None
                } else {
                    Some(1u32)
                }
            }
        }),
{
}

/// A drive command leaves behind that every node was sent closed loop control,
/// its control mode and its input mode, and changes nothing else.
pub proof fn drive_commands_track_what_was_sent(
    cmd: DriveCommand,
    before: CommandContextView,
    after: CommandContextView,
    sent: Seq<Outgoing>,
    node: u8,
)
    requires
        cmd.effect(before, after, sent),
    ensures
        ({
            let driven = before.left_nodes.contains(node) || before.right_nodes.contains(node);
            let mode: u32 = if before.drive_mode == DriveMode::Velocity {
                2
            } else {
                1
            };
            &&& driven ==> after.node_drive_state.contains_key(node)
                && after.node_drive_state[node] == (NodeDriveState {
                axis_state: Some(8),
                control_mode: Some(mode),
                input_mode: Some(1),
            })
            &&& !driven ==> (after.node_drive_state.contains_key(node)
                <==> before.node_drive_state.contains_key(node))
            &&& !driven && before.node_drive_state.contains_key(node)
                ==> after.node_drive_state[node] == before.node_drive_state[node]
        }),
        after.api == before.api,
        after.state == before.state,
        after.poll_ms == before.poll_ms,
        after.left_nodes == before.left_nodes,
        after.right_nodes == before.right_nodes,
        after.drive_mode == before.drive_mode,
        after.max_velocity == before.max_velocity,
        after.max_torque == before.max_torque,
{
    let nodes = before.left_nodes + before.right_nodes;
    if before.left_nodes.contains(node) {
        let k = choose|k: int| 0 <= k < before.left_nodes.len() && before.left_nodes[k] == node;
        assert(nodes[k] == node);
    }
    if before.right_nodes.contains(node) {
        let k = choose|k: int| 0 <= k < before.right_nodes.len() && before.right_nodes[k] == node;
        assert(nodes[before.left_nodes.len() + k] == node);
    }
    if nodes.contains(node) {
        let k = choose|k: int| 0 <= k < nodes.len() && nodes[k] == node;
        if k < before.left_nodes.len() {
            assert(before.left_nodes[k] == node);
        } else {
            assert(before.right_nodes[k - before.left_nodes.len()] == node);
        }
    }
}

/// A set point is a velocity or a torque, after the drive mode, and so is the limit
/// that normalized set points are scaled by. A setting is named where it is sent,
/// and only there.
pub proof fn set_points_follow_the_drive_mode(
    ctx: CommandContextView,
    name: Seq<char>,
    value: u32,
)
    ensures
        ctx.drive_mode == DriveMode::Velocity ==> ctx.full_scale() == ctx.max_velocity
            && setpoint_name(ctx.drive_mode) == "input_vel"@,
        ctx.drive_mode == DriveMode::Torque ==> ctx.full_scale() == ctx.max_torque
            && setpoint_name(ctx.drive_mode) == "input_torque"@,
        setting(name, Some(value)) == seq![(name, value)],
        setting(name, None).len() == 0,
{
}

} // verus!
