//! The `RoveControl` message and its parts.
//!
//! Fields of type `float` are held as the bit patterns in which they travel.
use vstd::prelude::*;

use crate::wire::{
    is_valid, read_fields, read_fixed32, read_message, read_varint, Field, FieldKind, FieldSpec,
    Schema, NESTING_LIMIT,
};

verus! {

/// Normalized track velocities (-1.0 .. 1.0).
#[derive(Clone, Copy, Debug, PartialEq, Eq, Structural)]
pub struct Tracks {
    pub left_vel: u32,
    pub right_vel: u32,
}

/// The set point of one joint.
#[derive(Clone, Copy, Debug, PartialEq, Eq, Structural)]
pub struct JointState {
    pub vel: u32,
    pub pos_deg: u32,
    pub torque: u32,
}

/// The four flippers.
#[derive(Clone, Copy, Debug, PartialEq, Eq, Structural)]
pub struct Flippers {
    pub fl: Option<JointState>,
    pub fr: Option<JointState>,
    pub rl: Option<JointState>,
    pub rr: Option<JointState>,
}

/// The six actuators of the arm.
#[derive(Clone, Copy, Debug, PartialEq, Eq, Structural)]
pub struct Ovis {
    pub act_1: Option<JointState>,
    pub act_2: Option<JointState>,
    pub act_3: Option<JointState>,
    pub act_4: Option<JointState>,
    pub act_5: Option<JointState>,
    pub act_6: Option<JointState>,
}

/// What an operator asks of the robot.
#[derive(Clone, Copy, Debug, PartialEq, Eq, Structural)]
pub struct RoveControl {
    pub tracks: Option<Tracks>,
    pub flippers: Option<Flippers>,
    pub ovis: Option<Ovis>,
    pub timestamp_us: u64,
}

/// The known tags 1 to `n`, all of one kind.
pub open spec fn numbered(n: nat, kind: FieldKind) -> Seq<FieldSpec> {
    Seq::new(n, |i: int| FieldSpec { tag: (i + 1) as u32, kind })
}

/// The layouts of the messages in this file, `RoveControl` first: tracks,
/// flippers, arm and timestamp, then `Tracks`, `Flippers`, `Ovis`, `JointState`.
pub open spec fn rove_control_layouts() -> Seq<Seq<FieldSpec>> {
    seq![
        seq![
            FieldSpec { tag: 1, kind: FieldKind::Message(1) },
            FieldSpec { tag: 2, kind: FieldKind::Message(2) },
            FieldSpec { tag: 3, kind: FieldKind::Message(3) },
            FieldSpec { tag: 4, kind: FieldKind::Varint },
        ],
        numbered(2, FieldKind::Fixed32),
        numbered(4, FieldKind::Message(4)),
        numbered(6, FieldKind::Message(4)),
        numbered(3, FieldKind::Fixed32),
    ]
}

/// The known tags 1 to `n`, all of one kind.
pub fn numbered_fields(n: u32, kind: FieldKind) -> (r: Vec<FieldSpec>)
    ensures
        r@ == numbered(n as nat, kind),
{
    let mut out: Vec<FieldSpec> = Vec::new();
    for i in 0..n
        invariant
            out@ == numbered(i as nat, kind),
    {
        out.push(FieldSpec { tag: i + 1, kind });
        assert(out@ =~= numbered((i + 1) as nat, kind));
    }
    out
}

/// The schema of `RoveControl`.
pub fn rove_control_schema() -> (r: Schema)
    ensures
        r.layouts() == rove_control_layouts(),
        crate::wire::layouts_closed(r.layouts()),
{
    let mut messages: Vec<Vec<FieldSpec>> = Vec::new();
    let mut top: Vec<FieldSpec> = Vec::new();
    top.push(FieldSpec { tag: 1, kind: FieldKind::Message(1) });
    top.push(FieldSpec { tag: 2, kind: FieldKind::Message(2) });
    top.push(FieldSpec { tag: 3, kind: FieldKind::Message(3) });
    top.push(FieldSpec { tag: 4, kind: FieldKind::Varint });
    assert(top@ =~= rove_control_layouts()[0]);
    messages.push(top);
    messages.push(numbered_fields(2, FieldKind::Fixed32));
    messages.push(numbered_fields(4, FieldKind::Message(4)));
    messages.push(numbered_fields(6, FieldKind::Message(4)));
    messages.push(numbered_fields(3, FieldKind::Fixed32));
    let r = Schema { messages };
    assert(r.layouts() =~= rove_control_layouts());
    r
}

/// The fields of an embedded message of layout `m` at depth `depth`.
pub open spec fn fields_at(m: int, s: Seq<u8>, depth: nat) -> Seq<crate::wire::FieldView> {
    crate::wire::message_fields(
        rove_control_layouts()[m],
        s,
        (NESTING_LIMIT - depth) as nat,
    )->0
}

/// The tracks that `s` holds.
pub open spec fn tracks_in(s: Seq<u8>) -> Tracks {
    let fs = fields_at(1, s, 1);
    Tracks {
        left_vel: crate::wire::last_fixed32(fs, 1),
        right_vel: crate::wire::last_fixed32(fs, 2),
    }
}

/// The joint state that `s` holds.
pub open spec fn joint_state_in(s: Seq<u8>) -> JointState {
    let fs = fields_at(4, s, 2);
    JointState {
        vel: crate::wire::last_fixed32(fs, 1),
        pos_deg: crate::wire::last_fixed32(fs, 2),
        torque: crate::wire::last_fixed32(fs, 3),
    }
}

/// The joint state under `tag`.
pub open spec fn joint_state_at(fs: Seq<crate::wire::FieldView>, tag: u32) -> Option<JointState> {
    match crate::wire::joined_message(fs, tag) {
        Some(p) => Some(joint_state_in(p)),
        None => None,
    }
}

/// The flippers that `s` holds.
pub open spec fn flippers_in(s: Seq<u8>) -> Flippers {
    let fs = fields_at(2, s, 1);
    Flippers {
        fl: joint_state_at(fs, 1),
        fr: joint_state_at(fs, 2),
        rl: joint_state_at(fs, 3),
        rr: joint_state_at(fs, 4),
    }
}

/// The arm that `s` holds.
pub open spec fn ovis_in(s: Seq<u8>) -> Ovis {
    let fs = fields_at(3, s, 1);
    Ovis {
        act_1: joint_state_at(fs, 1),
        act_2: joint_state_at(fs, 2),
        act_3: joint_state_at(fs, 3),
        act_4: joint_state_at(fs, 4),
        act_5: joint_state_at(fs, 5),
        act_6: joint_state_at(fs, 6),
    }
}

/// The message that `s` holds; `None` where `s` is no valid message.
pub open spec fn rove_control(s: Seq<u8>) -> Option<RoveControl> {
    if crate::wire::message_valid(rove_control_layouts(), 0, s, NESTING_LIMIT as nat) {
        let fs = fields_at(0, s, 0);
        Some(
            RoveControl {
                tracks: match crate::wire::joined_message(fs, 1) {
                    Some(p) => Some(tracks_in(p)),
                    None => None,
                },
                flippers: match crate::wire::joined_message(fs, 2) {
                    Some(p) => Some(flippers_in(p)),
                    None => None,
                },
                ovis: match crate::wire::joined_message(fs, 3) {
                    Some(p) => Some(ovis_in(p)),
                    None => None,
                },
                timestamp_us: crate::wire::last_varint(fs, 4),
            },
        )
    } else {
        None
    }
}

fn read_tracks(schema: &Schema, s: &[u8]) -> (r: Tracks)
    requires
        schema.layouts() == rove_control_layouts(),
        crate::wire::message_valid(rove_control_layouts(), 1, s@, (NESTING_LIMIT - 1) as nat),
    ensures
        r == tracks_in(s@),
{
    assert(schema.layouts().len() == 5);
    assert(schema.messages@[1]@ == schema.layouts()[1]);
    match read_fields(&schema.messages[1], s, NESTING_LIMIT - 1) {
        Some(fs) => Tracks { left_vel: read_fixed32(&fs, 1), right_vel: read_fixed32(&fs, 2) },
        None => Tracks { left_vel: 0, right_vel: 0 },
    }
}

fn read_joint_state(schema: &Schema, s: &[u8]) -> (r: JointState)
    requires
        schema.layouts() == rove_control_layouts(),
        crate::wire::message_valid(rove_control_layouts(), 4, s@, (NESTING_LIMIT - 2) as nat),
    ensures
        r == joint_state_in(s@),
{
    assert(schema.layouts().len() == 5);
    assert(schema.messages@[4]@ == schema.layouts()[4]);
    match read_fields(&schema.messages[4], s, NESTING_LIMIT - 2) {
        Some(fs) => JointState {
            vel: read_fixed32(&fs, 1),
            pos_deg: read_fixed32(&fs, 2),
            torque: read_fixed32(&fs, 3),
        },
        None => JointState { vel: 0, pos_deg: 0, torque: 0 },
    }
}

/// Reads the joint state under `tag` of the flippers or the arm.
fn read_joint_state_at(
    schema: &Schema,
    m: usize,
    s: &[u8],
    fs: &Vec<Field<'_>>,
    tag: u32,
) -> (r: Option<JointState>)
    requires
        schema.layouts() == rove_control_layouts(),
        m == 2 || m == 3,
        1 <= tag <= 4 || (m == 3 && tag <= 6 && tag >= 1),
        crate::wire::message_valid(
            rove_control_layouts(),
            m as int,
            s@,
            (NESTING_LIMIT - 1) as nat,
        ),
        crate::wire::field_views(fs@) == fields_at(m as int, s@, 1),
    ensures
        r == joint_state_at(crate::wire::field_views(fs@), tag),
{
    match read_message(fs, tag) {
        Some(p) => {
            proof {
                let layouts = rove_control_layouts();
                numbered_tags_are_known(layouts[m as int].len(), FieldKind::Message(4), tag);
                crate::wire::joined_message_is_valid(
                    layouts,
                    m as int,
                    s@,
                    (NESTING_LIMIT - 1) as nat,
                    tag,
                    4,
                );
            }
            Some(read_joint_state(schema, p.as_slice()))
        },
        None => None,
    }
}

/// Of numbered tags, each is known and of the one kind.
pub proof fn numbered_tags_are_known(n: nat, kind: FieldKind, tag: u32)
    requires
        1 <= tag <= n <= 8,
    ensures
        crate::wire::kind_of(numbered(n, kind), tag) == Some(kind),
{
    reveal_with_fuel(crate::wire::kind_of, 9);
}

fn read_flippers(schema: &Schema, s: &[u8]) -> (r: Flippers)
    requires
        schema.layouts() == rove_control_layouts(),
        crate::wire::message_valid(rove_control_layouts(), 2, s@, (NESTING_LIMIT - 1) as nat),
    ensures
        r == flippers_in(s@),
{
    assert(schema.layouts().len() == 5);
    assert(schema.messages@[2]@ == schema.layouts()[2]);
    match read_fields(&schema.messages[2], s, NESTING_LIMIT - 1) {
        Some(fs) => Flippers {
            fl: read_joint_state_at(schema, 2, s, &fs, 1),
            fr: read_joint_state_at(schema, 2, s, &fs, 2),
            rl: read_joint_state_at(schema, 2, s, &fs, 3),
            rr: read_joint_state_at(schema, 2, s, &fs, 4),
        },
        None => Flippers { fl: None, fr: None, rl: None, rr: None },
    }
}

fn read_ovis(schema: &Schema, s: &[u8]) -> (r: Ovis)
    requires
        schema.layouts() == rove_control_layouts(),
        crate::wire::message_valid(rove_control_layouts(), 3, s@, (NESTING_LIMIT - 1) as nat),
    ensures
        r == ovis_in(s@),
{
    assert(schema.layouts().len() == 5);
    assert(schema.messages@[3]@ == schema.layouts()[3]);
    match read_fields(&schema.messages[3], s, NESTING_LIMIT - 1) {
        Some(fs) => Ovis {
            act_1: read_joint_state_at(schema, 3, s, &fs, 1),
            act_2: read_joint_state_at(schema, 3, s, &fs, 2),
            act_3: read_joint_state_at(schema, 3, s, &fs, 3),
            act_4: read_joint_state_at(schema, 3, s, &fs, 4),
            act_5: read_joint_state_at(schema, 3, s, &fs, 5),
            act_6: read_joint_state_at(schema, 3, s, &fs, 6),
        },
        None => Ovis {
            act_1: None,
            act_2: None,
            act_3: None,
            act_4: None,
            act_5: None,
            act_6: None,
        },
    }
}

impl RoveControl {
    /// Reads a message.
    pub fn decode(s: &[u8]) -> (r: Option<RoveControl>)
        ensures
            r == rove_control(s@),
    {
        let schema = rove_control_schema();
        if !is_valid(&schema, 0, s, NESTING_LIMIT) {
            return None;
        }
        assert(schema.layouts().len() == 5);
        assert(schema.messages@[0]@ == schema.layouts()[0]);
        match read_fields(&schema.messages[0], s, NESTING_LIMIT) {
            Some(fs) => {
                let ghost layouts = rove_control_layouts();
                let ghost budget = NESTING_LIMIT as nat;
                proof {
                    reveal_with_fuel(crate::wire::kind_of, 4);
                }
                let tracks = match read_message(&fs, 1) {
                    Some(p) => {
                        proof {
                            crate::wire::joined_message_is_valid(layouts, 0, s@, budget, 1, 1);
                        }
                        Some(read_tracks(&schema, p.as_slice()))
                    },
                    None => None,
                };
                let flippers = match read_message(&fs, 2) {
                    Some(p) => {
                        proof {
                            crate::wire::joined_message_is_valid(layouts, 0, s@, budget, 2, 2);
                        }
                        Some(read_flippers(&schema, p.as_slice()))
                    },
                    None => None,
                };
                let ovis = match read_message(&fs, 3) {
                    Some(p) => {
                        proof {
                            crate::wire::joined_message_is_valid(layouts, 0, s@, budget, 3, 3);
                        }
                        Some(read_ovis(&schema, p.as_slice()))
                    },
                    None => None,
                };
                Some(RoveControl { tracks, flippers, ovis, timestamp_us: read_varint(&fs, 4) })
            },
            None => None,
        }
    }
}

} // verus!
