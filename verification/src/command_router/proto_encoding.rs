//! Writing the `RoveControl` message, and the proof that reading gives it back.
use vstd::prelude::*;

use crate::command_router::proto::{Flippers, JointState, Ovis, RoveControl, Tracks};
use crate::command_router::router::ControlCommand;
use crate::command_router::commands::drive::NormalizedDriveCommand;
use crate::encode::{write_float, write_message, write_uint64};
use crate::json::JsonTree;
use crate::scalar::Scalar;
use crate::wire::{FieldKind, FieldView, NESTING_LIMIT};

verus! {

/// The bytes of track velocities.
pub open spec fn tracks_bytes(t: Tracks) -> Seq<u8> {
    crate::encode::float_field(1, t.left_vel) + crate::encode::float_field(2, t.right_vel)
}

/// The bytes of the set point of a joint.
pub open spec fn joint_bytes(j: JointState) -> Seq<u8> {
    crate::encode::float_field(1, j.vel) + crate::encode::float_field(2, j.pos_deg)
        + crate::encode::float_field(3, j.torque)
}

/// The bytes of the set point of a joint, where there is one.
pub open spec fn joint_payload(j: Option<JointState>) -> Option<Seq<u8>> {
    match j {
        Some(j) => Some(joint_bytes(j)),
        None => None,
    }
}

/// The field under `tag` that holds the set point of a joint.
pub open spec fn joint_field(tag: u32, j: Option<JointState>) -> Seq<u8> {
    crate::encode::message_field(tag, joint_payload(j))
}

/// The bytes of the flippers.
pub open spec fn flippers_bytes(f: Flippers) -> Seq<u8> {
    joint_field(1, f.fl) + joint_field(2, f.fr) + joint_field(3, f.rl) + joint_field(4, f.rr)
}

/// The bytes of the arm.
pub open spec fn ovis_bytes(o: Ovis) -> Seq<u8> {
    joint_field(1, o.act_1) + joint_field(2, o.act_2) + joint_field(3, o.act_3) + joint_field(
        4,
        o.act_4,
    ) + joint_field(5, o.act_5) + joint_field(6, o.act_6)
}

/// The tracks, where there are any.
pub open spec fn tracks_payload(m: RoveControl) -> Option<Seq<u8>> {
    match m.tracks {
        Some(t) => Some(tracks_bytes(t)),
        None => None,
    }
}

/// The flippers, where there are any.
pub open spec fn flippers_payload(m: RoveControl) -> Option<Seq<u8>> {
    match m.flippers {
        Some(f) => Some(flippers_bytes(f)),
        None => None,
    }
}

/// The arm, where there is one.
pub open spec fn ovis_payload(m: RoveControl) -> Option<Seq<u8>> {
    match m.ovis {
        Some(o) => Some(ovis_bytes(o)),
        None => None,
    }
}

/// The bytes of a message.
pub open spec fn control_bytes(m: RoveControl) -> Seq<u8> {
    crate::encode::message_field(1, tracks_payload(m)) + crate::encode::message_field(
        2,
        flippers_payload(m),
    ) + crate::encode::message_field(3, ovis_payload(m)) + crate::encode::uint64_field(
        4,
        m.timestamp_us,
    )
}

/// Track velocities as they are read: zero has no sign.
pub open spec fn read_back_tracks(t: Tracks) -> Tracks {
    Tracks {
        left_vel: crate::encode::unsigned_zero(t.left_vel),
        right_vel: crate::encode::unsigned_zero(t.right_vel),
    }
}

/// A set point as it is read: zero has no sign.
pub open spec fn read_back_joint(j: Option<JointState>) -> Option<JointState> {
    match j {
        Some(j) => Some(
            JointState {
                vel: crate::encode::unsigned_zero(j.vel),
                pos_deg: crate::encode::unsigned_zero(j.pos_deg),
                torque: crate::encode::unsigned_zero(j.torque),
            },
        ),
        None => None,
    }
}

/// A message as it is read: zero has no sign.
pub open spec fn read_back(m: RoveControl) -> RoveControl {
    RoveControl {
        tracks: match m.tracks {
            Some(t) => Some(read_back_tracks(t)),
            None => None,
        },
        flippers: match m.flippers {
            Some(f) => Some(
                Flippers {
                    fl: read_back_joint(f.fl),
                    fr: read_back_joint(f.fr),
                    rl: read_back_joint(f.rl),
                    rr: read_back_joint(f.rr),
                },
            ),
            None => None,
        },
        ovis: match m.ovis {
            Some(o) => Some(
                Ovis {
                    act_1: read_back_joint(o.act_1),
                    act_2: read_back_joint(o.act_2),
                    act_3: read_back_joint(o.act_3),
                    act_4: read_back_joint(o.act_4),
                    act_5: read_back_joint(o.act_5),
                    act_6: read_back_joint(o.act_6),
                },
            ),
            None => None,
        },
        timestamp_us: m.timestamp_us,
    }
}

/// Writes the field under `tag` that holds the set point of a joint.
fn write_joint(out: &mut Vec<u8>, tag: u32, joint: Option<JointState>)
    requires
        1 <= tag < 16,
    ensures
        final(out)@ == old(out)@ + joint_field(tag, joint),
{
    match joint {
        Some(j) => {
            let mut payload: Vec<u8> = Vec::new();
            write_float(&mut payload, 1, j.vel);
            write_float(&mut payload, 2, j.pos_deg);
            write_float(&mut payload, 3, j.torque);
            assert(payload@ =~= joint_bytes(j));
            write_message(out, tag, &payload);
        },
        None => {
            assert(old(out)@ + joint_field(tag, joint) =~= old(out)@);
        },
    }
}

impl RoveControl {
    /// Writes the message.
    pub fn encode_to_vec(&self) -> (r: Vec<u8>)
        ensures
            r@ == control_bytes(*self),
    {
        let mut out: Vec<u8> = Vec::new();
        match self.tracks {
            Some(t) => {
                let mut payload: Vec<u8> = Vec::new();
                write_float(&mut payload, 1, t.left_vel);
                write_float(&mut payload, 2, t.right_vel);
                assert(payload@ =~= tracks_bytes(t));
                write_message(&mut out, 1, &payload);
            },
            None => {},
        }
        assert(out@ =~= crate::encode::message_field(1, tracks_payload(*self)));
        let ghost first = out@;
        match self.flippers {
            Some(f) => {
                let mut payload: Vec<u8> = Vec::new();
                write_joint(&mut payload, 1, f.fl);
                write_joint(&mut payload, 2, f.fr);
                write_joint(&mut payload, 3, f.rl);
                write_joint(&mut payload, 4, f.rr);
                assert(payload@ =~= flippers_bytes(f));
                write_message(&mut out, 2, &payload);
            },
            None => {},
        }
        assert(out@ =~= first + crate::encode::message_field(2, flippers_payload(*self)));
        let ghost second = out@;
        match self.ovis {
            Some(o) => {
                let mut payload: Vec<u8> = Vec::new();
                write_joint(&mut payload, 1, o.act_1);
                write_joint(&mut payload, 2, o.act_2);
                write_joint(&mut payload, 3, o.act_3);
                write_joint(&mut payload, 4, o.act_4);
                write_joint(&mut payload, 5, o.act_5);
                write_joint(&mut payload, 6, o.act_6);
                assert(payload@ =~= ovis_bytes(o));
                write_message(&mut out, 3, &payload);
            },
            None => {},
        }
        assert(out@ =~= second + crate::encode::message_field(3, ovis_payload(*self)));
        write_uint64(&mut out, 4, self.timestamp_us);
        out
    }
}

/// The fields of a message that consists of another one and a field behind it.
proof fn lemma_append(
    m: int,
    a: Seq<u8>,
    fs: Seq<FieldView>,
    b: Seq<u8>,
    more: Seq<FieldView>,
    budget: nat,
)
    requires
        crate::wire::message_fields(
            crate::command_router::proto::rove_control_layouts()[m],
            a,
            budget,
        ) == Some(fs),
        crate::wire::message_fields(
            crate::command_router::proto::rove_control_layouts()[m],
            b,
            budget,
        ) == Some(more),
    ensures
        crate::wire::message_fields(
            crate::command_router::proto::rove_control_layouts()[m],
            a + b,
            budget,
        ) == Some(fs + more),
{
    crate::wire::messages_concatenate(
        crate::command_router::proto::rove_control_layouts()[m],
        a,
        b,
        budget,
    );
}

proof fn lemma_tracks(t: Tracks)
    ensures
        crate::wire::message_valid(
            crate::command_router::proto::rove_control_layouts(),
            1,
            tracks_bytes(t),
            (NESTING_LIMIT - 1) as nat,
        ),
        crate::command_router::proto::tracks_in(tracks_bytes(t)) == read_back_tracks(t),
        tracks_bytes(t).len() <= 10,
{
    let layouts = crate::command_router::proto::rove_control_layouts();
    let budget = (NESTING_LIMIT - 1) as nat;
    assert(layouts[1] == crate::command_router::proto::numbered(2, FieldKind::Fixed32));
    crate::command_router::proto::numbered_tags_are_known(2, FieldKind::Fixed32, 1);
    crate::command_router::proto::numbered_tags_are_known(2, FieldKind::Fixed32, 2);
    let a = crate::encode::float_field(1, t.left_vel);
    let b = crate::encode::float_field(2, t.right_vel);
    let va = crate::encode::float_view(1, t.left_vel);
    let vb = crate::encode::float_view(2, t.right_vel);
    crate::encode::floats_round_trip(layouts[1], 1, t.left_vel, budget);
    crate::encode::floats_round_trip(layouts[1], 2, t.right_vel, budget);
    lemma_append(1, a, va, b, vb, budget);
    assert(Seq::<FieldView>::empty() + va =~= va);
    assert forall|tag: u32| #[trigger] crate::wire::last_fixed32(va + vb, tag) == if tag == 2
        && !crate::encode::is_zero(t.right_vel) {
        t.right_vel
    } else if tag == 1 && !crate::encode::is_zero(t.left_vel) {
        t.left_vel
    } else {
        0
    } by {
        crate::encode::later_floats_count(va, 2, t.right_vel, tag);
        crate::encode::later_floats_count(Seq::empty(), 1, t.left_vel, tag);
    }
}

proof fn lemma_joint(j: JointState)
    ensures
        crate::wire::message_valid(
            crate::command_router::proto::rove_control_layouts(),
            4,
            joint_bytes(j),
            (NESTING_LIMIT - 2) as nat,
        ),
        Some(crate::command_router::proto::joint_state_in(joint_bytes(j))) == read_back_joint(
            Some(j),
        ),
        joint_bytes(j).len() <= 15,
{
    let layouts = crate::command_router::proto::rove_control_layouts();
    let budget = (NESTING_LIMIT - 2) as nat;
    assert(layouts[4] == crate::command_router::proto::numbered(3, FieldKind::Fixed32));
    crate::command_router::proto::numbered_tags_are_known(3, FieldKind::Fixed32, 1);
    crate::command_router::proto::numbered_tags_are_known(3, FieldKind::Fixed32, 2);
    crate::command_router::proto::numbered_tags_are_known(3, FieldKind::Fixed32, 3);
    let a = crate::encode::float_field(1, j.vel);
    let b = crate::encode::float_field(2, j.pos_deg);
    let c = crate::encode::float_field(3, j.torque);
    let va = crate::encode::float_view(1, j.vel);
    let vb = crate::encode::float_view(2, j.pos_deg);
    let vc = crate::encode::float_view(3, j.torque);
    crate::encode::floats_round_trip(layouts[4], 1, j.vel, budget);
    crate::encode::floats_round_trip(layouts[4], 2, j.pos_deg, budget);
    crate::encode::floats_round_trip(layouts[4], 3, j.torque, budget);
    lemma_append(4, a, va, b, vb, budget);
    lemma_append(4, a + b, va + vb, c, vc, budget);
    assert(Seq::<FieldView>::empty() + va =~= va);
    assert forall|tag: u32| #[trigger] crate::wire::last_fixed32(va + vb + vc, tag) == if tag == 3
        && !crate::encode::is_zero(j.torque) {
        j.torque
    } else if tag == 2 && !crate::encode::is_zero(j.pos_deg) {
        j.pos_deg
    } else if tag == 1 && !crate::encode::is_zero(j.vel) {
        j.vel
    } else {
        0
    } by {
        crate::encode::later_floats_count(va + vb, 3, j.torque, tag);
        crate::encode::later_floats_count(va, 2, j.pos_deg, tag);
        crate::encode::later_floats_count(Seq::empty(), 1, j.vel, tag);
    }
}

/// Whether reading `a` as a message of layout `m`, `depth` deep, gives valid
/// fields `fs`.
#[verifier::opaque]
spec fn reads_as(m: int, a: Seq<u8>, fs: Seq<FieldView>, depth: nat) -> bool {
    let layouts = crate::command_router::proto::rove_control_layouts();
    let budget = (NESTING_LIMIT - depth) as nat;
    &&& crate::wire::message_fields(layouts[m], a, budget) == Some(fs)
    &&& crate::encode::nested_valid(layouts, fs, budget)
}

proof fn lemma_reads_as(m: int, a: Seq<u8>, fs: Seq<FieldView>, depth: nat)
    requires
        reads_as(m, a, fs, depth),
    ensures
        crate::wire::message_valid(
            crate::command_router::proto::rove_control_layouts(),
            m,
            a,
            (NESTING_LIMIT - depth) as nat,
        ),
        crate::command_router::proto::fields_at(m, a, depth) == fs,
{
    reveal(reads_as);
}

proof fn lemma_reads_nothing(m: int, depth: nat)
    ensures
        reads_as(m, Seq::empty(), Seq::empty(), depth),
{
    reveal(reads_as);
}

/// The number of joints in a layout that holds nothing else.
spec fn joints_of(m: int) -> nat {
    if m == 2 {
        4
    } else {
        6
    }
}

/// Fields that hold set points of joints, and the one under `t` behind them: what
/// is read, what is valid, and what counts under each tag.
proof fn lemma_joint_field(m: int, a: Seq<u8>, fs: Seq<FieldView>, t: u32, j: Option<JointState>)
    requires
        m == 2 || m == 3,
        1 <= t <= joints_of(m),
        reads_as(m, a, fs, 1),
        crate::wire::joined_message(fs, t) is None,
    ensures
        ({
            let all = fs + crate::encode::message_view(t, 4, joint_payload(j));
            &&& reads_as(m, a + joint_field(t, j), all, 1)
            &&& crate::command_router::proto::joint_state_at(all, t) == read_back_joint(j)
            &&& forall|tag: u32|
                tag != t ==> #[trigger] crate::wire::joined_message(all, tag)
                    == crate::wire::joined_message(fs, tag)
        }),
        joint_field(t, j).len() <= 17,
{
    reveal(reads_as);
    let layouts = crate::command_router::proto::rove_control_layouts();
    let budget = (NESTING_LIMIT - 1) as nat;
    let payload = joint_payload(j);
    let more = crate::encode::message_view(t, 4, payload);
    assert(layouts[m] == crate::command_router::proto::numbered(
        joints_of(m),
        FieldKind::Message(4),
    ));
    crate::command_router::proto::numbered_tags_are_known(joints_of(m), FieldKind::Message(4), t);
    if let Some(s) = j {
        lemma_joint(s);
        assert(crate::encode::varint_bytes(joint_bytes(s).len()).len() == 1);
    }
    crate::encode::messages_round_trip(layouts[m], t, 4, payload, budget);
    lemma_append(m, a, fs, joint_field(t, j), more, budget);
    crate::encode::valid_fields_append(layouts, fs, more, budget);
    crate::encode::later_messages_count(fs, t, 4, payload, t);
    assert forall|tag: u32| tag != t implies #[trigger] crate::wire::joined_message(fs + more, tag)
        == crate::wire::joined_message(fs, tag) by {
        crate::encode::later_messages_count(fs, t, 4, payload, tag);
    }
}

proof fn lemma_flippers(f: Flippers)
    ensures
        crate::wire::message_valid(
            crate::command_router::proto::rove_control_layouts(),
            2,
            flippers_bytes(f),
            (NESTING_LIMIT - 1) as nat,
        ),
        crate::command_router::proto::flippers_in(flippers_bytes(f)) == (Flippers {
            fl: read_back_joint(f.fl),
            fr: read_back_joint(f.fr),
            rl: read_back_joint(f.rl),
            rr: read_back_joint(f.rr),
        }),
        flippers_bytes(f).len() <= 68,
{
    let v0 = Seq::<FieldView>::empty();
    let v1 = v0 + crate::encode::message_view(1, 4, joint_payload(f.fl));
    let v2 = v1 + crate::encode::message_view(2, 4, joint_payload(f.fr));
    let v3 = v2 + crate::encode::message_view(3, 4, joint_payload(f.rl));
    let v4 = v3 + crate::encode::message_view(4, 4, joint_payload(f.rr));
    let b0 = Seq::<u8>::empty();
    let b1 = b0 + joint_field(1, f.fl);
    let b2 = b1 + joint_field(2, f.fr);
    let b3 = b2 + joint_field(3, f.rl);
    let b4 = b3 + joint_field(4, f.rr);
    lemma_reads_nothing(2, 1);
    lemma_joint_field(2, b0, v0, 1, f.fl);
    lemma_joint_field(2, b1, v1, 2, f.fr);
    lemma_joint_field(2, b2, v2, 3, f.rl);
    lemma_joint_field(2, b3, v3, 4, f.rr);
    assert(b4 =~= flippers_bytes(f));
    lemma_reads_as(2, b4, v4, 1);
}

proof fn lemma_ovis(o: Ovis)
    ensures
        crate::wire::message_valid(
            crate::command_router::proto::rove_control_layouts(),
            3,
            ovis_bytes(o),
            (NESTING_LIMIT - 1) as nat,
        ),
        crate::command_router::proto::ovis_in(ovis_bytes(o)) == (Ovis {
            act_1: read_back_joint(o.act_1),
            act_2: read_back_joint(o.act_2),
            act_3: read_back_joint(o.act_3),
            act_4: read_back_joint(o.act_4),
            act_5: read_back_joint(o.act_5),
            act_6: read_back_joint(o.act_6),
        }),
        ovis_bytes(o).len() <= 102,
{
    let v0 = Seq::<FieldView>::empty();
    let v1 = v0 + crate::encode::message_view(1, 4, joint_payload(o.act_1));
    let v2 = v1 + crate::encode::message_view(2, 4, joint_payload(o.act_2));
    let v3 = v2 + crate::encode::message_view(3, 4, joint_payload(o.act_3));
    let v4 = v3 + crate::encode::message_view(4, 4, joint_payload(o.act_4));
    let v5 = v4 + crate::encode::message_view(5, 4, joint_payload(o.act_5));
    let v6 = v5 + crate::encode::message_view(6, 4, joint_payload(o.act_6));
    let b0 = Seq::<u8>::empty();
    let b1 = b0 + joint_field(1, o.act_1);
    let b2 = b1 + joint_field(2, o.act_2);
    let b3 = b2 + joint_field(3, o.act_3);
    let b4 = b3 + joint_field(4, o.act_4);
    let b5 = b4 + joint_field(5, o.act_5);
    let b6 = b5 + joint_field(6, o.act_6);
    lemma_reads_nothing(3, 1);
    lemma_joint_field(3, b0, v0, 1, o.act_1);
    lemma_joint_field(3, b1, v1, 2, o.act_2);
    lemma_joint_field(3, b2, v2, 3, o.act_3);
    lemma_joint_field(3, b3, v3, 4, o.act_4);
    lemma_joint_field(3, b4, v4, 5, o.act_5);
    lemma_joint_field(3, b5, v5, 6, o.act_6);
    assert(b6 =~= ovis_bytes(o));
    lemma_reads_as(3, b6, v6, 1);
}

/// A message with a part under `t` behind it.
proof fn lemma_part(a: Seq<u8>, fs: Seq<FieldView>, t: u32, payload: Option<Seq<u8>>)
    requires
        1 <= t <= 3,
        reads_as(0, a, fs, 0),
        crate::wire::joined_message(fs, t) is None,
        payload matches Some(p) ==> p.len() <= 102 && crate::wire::message_valid(
            crate::command_router::proto::rove_control_layouts(),
            t as int,
            p,
            (NESTING_LIMIT - 1) as nat,
        ),
    ensures
        ({
            let all = fs + crate::encode::message_view(t, t as usize, payload);
            &&& reads_as(0, a + crate::encode::message_field(t, payload), all, 0)
            &&& crate::wire::joined_message(all, t) == payload
            &&& crate::wire::last_varint(all, 4) == crate::wire::last_varint(fs, 4)
            &&& forall|tag: u32|
                tag != t ==> #[trigger] crate::wire::joined_message(all, tag)
                    == crate::wire::joined_message(fs, tag)
        }),
{
    reveal(reads_as);
    let layouts = crate::command_router::proto::rove_control_layouts();
    let budget = NESTING_LIMIT as nat;
    let c = t as usize;
    let more = crate::encode::message_view(t, c, payload);
    reveal_with_fuel(crate::wire::kind_of, 4);
    crate::encode::messages_round_trip(layouts[0], t, c, payload, budget);
    lemma_append(0, a, fs, crate::encode::message_field(t, payload), more, budget);
    crate::encode::valid_fields_append(layouts, fs, more, budget);
    crate::encode::later_messages_count(fs, t, c, payload, t);
    crate::encode::later_messages_count(fs, t, c, payload, 4);
    assert forall|tag: u32| tag != t implies #[trigger] crate::wire::joined_message(fs + more, tag)
        == crate::wire::joined_message(fs, tag) by {
        crate::encode::later_messages_count(fs, t, c, payload, tag);
    }
}

/// A message with the time stamp behind it.
proof fn lemma_timestamp(a: Seq<u8>, fs: Seq<FieldView>, v: u64)
    requires
        reads_as(0, a, fs, 0),
        crate::wire::last_varint(fs, 4) == 0,
    ensures
        ({
            let all = fs + crate::encode::uint64_view(4, v);
            &&& reads_as(0, a + crate::encode::uint64_field(4, v), all, 0)
            &&& crate::wire::last_varint(all, 4) == v
            &&& forall|tag: u32| #[trigger]
                crate::wire::joined_message(all, tag) == crate::wire::joined_message(fs, tag)
        }),
{
    reveal(reads_as);
    let layouts = crate::command_router::proto::rove_control_layouts();
    let budget = NESTING_LIMIT as nat;
    let more = crate::encode::uint64_view(4, v);
    reveal_with_fuel(crate::wire::kind_of, 5);
    crate::encode::integers_round_trip(layouts[0], 4, v, budget);
    lemma_append(0, a, fs, crate::encode::uint64_field(4, v), more, budget);
    crate::encode::valid_fields_append(layouts, fs, more, budget);
    crate::encode::later_integers_count(fs, 4, v, 4);
    assert forall|tag: u32| #[trigger] crate::wire::joined_message(fs + more, tag)
        == crate::wire::joined_message(fs, tag) by {
        crate::encode::later_integers_count(fs, 4, v, tag);
    }
}

/// Reading a message gives back what was written, but that zero loses its sign.
pub proof fn control_messages_round_trip(m: RoveControl)
    ensures
        crate::command_router::proto::rove_control(control_bytes(m)) == Some(read_back(m)),
{
    let (p1, p2, p3) = (tracks_payload(m), flippers_payload(m), ovis_payload(m));
    if m.tracks is Some {
        lemma_tracks(m.tracks->0);
    }
    if m.flippers is Some {
        lemma_flippers(m.flippers->0);
    }
    if m.ovis is Some {
        lemma_ovis(m.ovis->0);
    }
    let v0 = Seq::<FieldView>::empty();
    let v1 = v0 + crate::encode::message_view(1, 1, p1);
    let v2 = v1 + crate::encode::message_view(2, 2, p2);
    let v3 = v2 + crate::encode::message_view(3, 3, p3);
    let v4 = v3 + crate::encode::uint64_view(4, m.timestamp_us);
    let b0 = Seq::<u8>::empty();
    let b1 = b0 + crate::encode::message_field(1, p1);
    let b2 = b1 + crate::encode::message_field(2, p2);
    let b3 = b2 + crate::encode::message_field(3, p3);
    let b4 = b3 + crate::encode::uint64_field(4, m.timestamp_us);
    lemma_reads_nothing(0, 0);
    lemma_part(b0, v0, 1, p1);
    lemma_part(b1, v1, 2, p2);
    lemma_part(b2, v2, 3, p3);
    lemma_timestamp(b3, v3, m.timestamp_us);
    assert(b4 =~= control_bytes(m));
    lemma_reads_as(0, b4, v4, 0);
}

/// A message with track velocities is the drive command of these velocities,
/// whatever else it holds, and whatever its bytes would be as JSON.
pub proof fn tracks_become_the_drive_command(m: RoveControl, document: Option<JsonTree>)
    requires
        m.tracks is Some,
    ensures
        crate::command_router::router::control_packet(control_bytes(m), document) == Some(
            ControlCommand::Normalized(
                NormalizedDriveCommand {
                    left_norm: Scalar::Single(crate::encode::unsigned_zero(m.tracks->0.left_vel)),
                    right_norm: Scalar::Single(crate::encode::unsigned_zero(m.tracks->0.right_vel)),
                },
            ),
        ),
{
    control_messages_round_trip(m);
    assert(control_bytes(m)[0] == crate::encode::key_byte(1, 2));
}

/// Whether `a` is a valid message of layout `m`, `depth` deep.
#[verifier::opaque]
spec fn holds(m: int, a: Seq<u8>, depth: nat) -> bool {
    crate::wire::message_valid(
        crate::command_router::proto::rove_control_layouts(),
        m,
        a,
        (NESTING_LIMIT - depth) as nat,
    )
}

proof fn lemma_mistyped(m: int, tag: u32, wire: u32, rest: Seq<u8>, depth: nat)
    requires
        1 <= tag < 16,
        wire < 6,
        match crate::wire::kind_of(crate::command_router::proto::rove_control_layouts()[m], tag) {
            Some(FieldKind::Varint) => wire != 0,
            Some(FieldKind::Fixed64) => wire != 1,
            Some(FieldKind::Message(_)) => wire != 2,
            Some(FieldKind::Fixed32) => wire != 5,
            None => false,
        },
    ensures
        !holds(m, seq![crate::encode::key_byte(tag, wire)] + rest, depth),
{
    reveal(holds);
    crate::encode::mistyped_fields_are_unreadable(
        crate::command_router::proto::rove_control_layouts()[m],
        tag,
        wire,
        rest,
        (NESTING_LIMIT - depth) as nat,
    );
}

/// A message that holds an unreadable one is not valid.
proof fn lemma_bad_part(m: int, tag: u32, c: usize, p: Seq<u8>, depth: nat)
    requires
        1 <= tag < 16,
        depth < 10,
        crate::wire::kind_of(crate::command_router::proto::rove_control_layouts()[m], tag) == Some(
            FieldKind::Message(c),
        ),
        p.len() <= 0xFFFF_FFFF,
        !holds(c as int, p, depth + 1),
    ensures
        !holds(m, crate::encode::message_field(tag, Some(p)), depth),
{
    reveal(holds);
    let layouts = crate::command_router::proto::rove_control_layouts();
    let budget = (NESTING_LIMIT - depth) as nat;
    crate::encode::messages_round_trip(layouts[m], tag, c, Some(p), budget);
    let fs = crate::encode::message_view(tag, c, Some(p));
    assert(fs[0].value == crate::wire::FieldValue::Message(c, p));
}

/// A message in which a part or the time stamp has another wire type than its own
/// is not read: tracks, flippers and arm are messages (wire type 2), the time stamp
/// is an integer (0).
pub proof fn mistyped_messages_are_not_read(tag: u32, wire: u32, rest: Seq<u8>)
    requires
        1 <= tag <= 4,
        wire < 6,
        wire != if tag == 4 {
            0u32
        } else {
            2u32
        },
    ensures
        crate::command_router::proto::rove_control(
            seq![crate::encode::key_byte(tag, wire)] + rest,
        ) is None,
{
    reveal_with_fuel(crate::wire::kind_of, 5);
    lemma_mistyped(0, tag, wire, rest, 0);
    reveal(holds);
}

/// A message is not read where a field of one of its parts has another wire type
/// than its own: the two velocities of the tracks are singles (5), the four flippers
/// and the six joints of the arm are messages (2).
pub proof fn mistyped_parts_are_not_read(part: u32, tag: u32, wire: u32, rest: Seq<u8>)
    requires
        wire < 6,
        ({
            ||| part == 1 && 1 <= tag <= 2 && wire != 5
            ||| part == 2 && 1 <= tag <= 4 && wire != 2
            ||| part == 3 && 1 <= tag <= 6 && wire != 2
        }),
        rest.len() < 0xFFFF_FFFF,
    ensures
        crate::command_router::proto::rove_control(
            crate::encode::message_field(
                part,
                Some(seq![crate::encode::key_byte(tag, wire)] + rest),
            ),
        ) is None,
{
    let layouts = crate::command_router::proto::rove_control_layouts();
    if part == 1 {
        crate::command_router::proto::numbered_tags_are_known(2, FieldKind::Fixed32, tag);
    } else {
        crate::command_router::proto::numbered_tags_are_known(
            joints_of(part as int),
            FieldKind::Message(4),
            tag,
        );
        assert(layouts[part as int] == crate::command_router::proto::numbered(
            joints_of(part as int),
            FieldKind::Message(4),
        ));
    }
    lemma_mistyped(part as int, tag, wire, rest, 1);
    assert(crate::wire::kind_of(layouts[0], part) == Some(FieldKind::Message(part as usize))) by {
        reveal_with_fuel(crate::wire::kind_of, 5);
    }
    let bytes = seq![crate::encode::key_byte(tag, wire)] + rest;
    lemma_bad_part(0, part, part as usize, bytes, 0);
    reveal(holds);
}

/// A message is not read where one of the three numbers of a joint has another wire
/// type than that of a single (5).
pub proof fn mistyped_joints_are_not_read(
    part: u32,
    joint: u32,
    tag: u32,
    wire: u32,
    rest: Seq<u8>,
)
    requires
        (part == 2 && 1 <= joint <= 4) || (part == 3 && 1 <= joint <= 6),
        1 <= tag <= 3,
        wire < 6,
        wire != 5,
        rest.len() < 0xFFFF_FF00,
    ensures
        crate::command_router::proto::rove_control(
            crate::encode::message_field(
                part,
                Some(
                    crate::encode::message_field(
                        joint,
                        Some(seq![crate::encode::key_byte(tag, wire)] + rest),
                    ),
                ),
            ),
        ) is None,
{
    let layouts = crate::command_router::proto::rove_control_layouts();
    crate::command_router::proto::numbered_tags_are_known(3, FieldKind::Fixed32, tag);
    crate::command_router::proto::numbered_tags_are_known(
        joints_of(part as int),
        FieldKind::Message(4),
        joint,
    );
    assert(layouts[part as int] == crate::command_router::proto::numbered(
        joints_of(part as int),
        FieldKind::Message(4),
    ));
    assert(crate::wire::kind_of(layouts[0], part) == Some(FieldKind::Message(part as usize))) by {
        reveal_with_fuel(crate::wire::kind_of, 5);
    }
    let bytes = seq![crate::encode::key_byte(tag, wire)] + rest;
    lemma_mistyped(4, tag, wire, rest, 2);
    lemma_bad_part(part as int, joint, 4, bytes, 1);
    crate::encode::varints_are_short(bytes.len() as u64);
    lemma_bad_part(0, part, part as usize, crate::encode::message_field(joint, Some(bytes)), 0);
    reveal(holds);
}

} // verus!
