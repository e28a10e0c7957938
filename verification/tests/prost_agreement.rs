//! Holds the decoder of this library against that of `prost`, on well-formed
//! messages and on thousands of damaged ones.
use prost::bytes::{Buf, BufMut};
use prost::encoding::{skip_field, DecodeContext, WireType};
use prost::{DecodeError, Message};

use rove::command_router::proto::{Flippers, JointState, Ovis, RoveControl, Tracks};
use rove::command_router::router::{parse_control, ControlCommand};
use rove::command_router::commands::drive::NormalizedDriveCommand;
use rove::scalar::Scalar;

#[derive(Clone, Debug, Default)]
struct Floats {
    values: [f32; 3],
    known: u32,
}

/// A message of which tags 1 to `known` are floats.
fn merge_floats(
    m: &mut Floats,
    known: u32,
    tag: u32,
    wire: WireType,
    buf: &mut impl Buf,
    ctx: DecodeContext,
) -> Result<(), DecodeError> {
    m.known = known;
    if tag >= 1 && tag <= known {
        prost::encoding::float::merge(wire, &mut m.values[tag as usize - 1], buf, ctx)
    } else {
        skip_field(wire, tag, buf, ctx)
    }
}

#[derive(Clone, Debug, Default)]
struct Pair(Floats);

#[derive(Clone, Debug, Default)]
struct Triple(Floats);

#[derive(Clone, Debug, Default)]
struct Joints4([Option<Triple>; 4]);

#[derive(Clone, Debug, Default)]
struct Joints6([Option<Triple>; 6]);

#[derive(Clone, Debug, Default)]
struct Control {
    tracks: Option<Pair>,
    flippers: Option<Joints4>,
    ovis: Option<Joints6>,
    timestamp_us: u64,
}

impl Message for Pair {
    fn encode_raw(&self, _buf: &mut impl BufMut) {}
    fn merge_field(
        &mut self,
        tag: u32,
        wire: WireType,
        buf: &mut impl Buf,
        ctx: DecodeContext,
    ) -> Result<(), DecodeError> {
        merge_floats(&mut self.0, 2, tag, wire, buf, ctx)
    }
    fn encoded_len(&self) -> usize {
        0
    }
    fn clear(&mut self) {
        *self = Pair::default();
    }
}

impl Message for Triple {
    fn encode_raw(&self, _buf: &mut impl BufMut) {}
    fn merge_field(
        &mut self,
        tag: u32,
        wire: WireType,
        buf: &mut impl Buf,
        ctx: DecodeContext,
    ) -> Result<(), DecodeError> {
        merge_floats(&mut self.0, 3, tag, wire, buf, ctx)
    }
    fn encoded_len(&self) -> usize {
        0
    }
    fn clear(&mut self) {
        *self = Triple::default();
    }
}

impl Message for Joints4 {
    fn encode_raw(&self, _buf: &mut impl BufMut) {}
    fn merge_field(
        &mut self,
        tag: u32,
        wire: WireType,
        buf: &mut impl Buf,
        ctx: DecodeContext,
    ) -> Result<(), DecodeError> {
        match self.0.get_mut((tag as usize).wrapping_sub(1)) {
            Some(slot) => {
                prost::encoding::message::merge(wire, slot.get_or_insert_with(Default::default), buf, ctx)
            }
            None => skip_field(wire, tag, buf, ctx),
        }
    }
    fn encoded_len(&self) -> usize {
        0
    }
    fn clear(&mut self) {
        *self = Joints4::default();
    }
}

impl Message for Joints6 {
    fn encode_raw(&self, _buf: &mut impl BufMut) {}
    fn merge_field(
        &mut self,
        tag: u32,
        wire: WireType,
        buf: &mut impl Buf,
        ctx: DecodeContext,
    ) -> Result<(), DecodeError> {
        match self.0.get_mut((tag as usize).wrapping_sub(1)) {
            Some(slot) => {
                prost::encoding::message::merge(wire, slot.get_or_insert_with(Default::default), buf, ctx)
            }
            None => skip_field(wire, tag, buf, ctx),
        }
    }
    fn encoded_len(&self) -> usize {
        0
    }
    fn clear(&mut self) {
        *self = Joints6::default();
    }
}

impl Message for Control {
    fn encode_raw(&self, _buf: &mut impl BufMut) {}
    fn merge_field(
        &mut self,
        tag: u32,
        wire: WireType,
        buf: &mut impl Buf,
        ctx: DecodeContext,
    ) -> Result<(), DecodeError> {
        match tag {
            1 => prost::encoding::message::merge(
                wire,
                self.tracks.get_or_insert_with(Default::default),
                buf,
                ctx,
            ),
            2 => prost::encoding::message::merge(
                wire,
                self.flippers.get_or_insert_with(Default::default),
                buf,
                ctx,
            ),
            3 => prost::encoding::message::merge(
                wire,
                self.ovis.get_or_insert_with(Default::default),
                buf,
                ctx,
            ),
            4 => prost::encoding::uint64::merge(wire, &mut self.timestamp_us, buf, ctx),
            _ => skip_field(wire, tag, buf, ctx),
        }
    }
    fn encoded_len(&self) -> usize {
        0
    }
    fn clear(&mut self) {
        *self = Control::default();
    }
}

fn same_joint(theirs: &Option<Triple>, ours: &Option<JointState>) -> bool {
    match (theirs, ours) {
        (None, None) => true,
        (Some(t), Some(o)) => {
            t.0.values.map(f32::to_bits) == [o.vel, o.pos_deg, o.torque]
        }
        _ => false,
    }
}

/// Whether both decoders make the same of `bytes`.
fn agree(bytes: &[u8]) -> bool {
    match (Control::decode(bytes), RoveControl::decode(bytes)) {
        (Err(_), None) => true,
        (Ok(t), Some(o)) => {
            let tracks = match (&t.tracks, &o.tracks) {
                (None, None) => true,
                (Some(a), Some(b)) => {
                    a.0.values[0].to_bits() == b.left_vel && a.0.values[1].to_bits() == b.right_vel
                }
                _ => false,
            };
            let flippers = match (&t.flippers, &o.flippers) {
                (None, None) => true,
                (Some(a), Some(b)) => [b.fl, b.fr, b.rl, b.rr]
                    .iter()
                    .zip(a.0.iter())
                    .all(|(b, a)| same_joint(a, b)),
                _ => false,
            };
            let ovis = match (&t.ovis, &o.ovis) {
                (None, None) => true,
                (Some(a), Some(b)) => [b.act_1, b.act_2, b.act_3, b.act_4, b.act_5, b.act_6]
                    .iter()
                    .zip(a.0.iter())
                    .all(|(b, a)| same_joint(a, b)),
                _ => false,
            };
            tracks && flippers && ovis && t.timestamp_us == o.timestamp_us
        }
        _ => false,
    }
}

struct Random(u64);

impl Random {
    fn next(&mut self, below: u64) -> u64 {
        self.0 = self.0.wrapping_mul(6364136223846793005).wrapping_add(1442695040888963407);
        (self.0 >> 33) % below
    }
}

fn embed(tag: u32, payload: &[u8], out: &mut Vec<u8>) {
    prost::encoding::bytes::encode(tag, &payload.to_vec(), out);
}

fn some_floats(r: &mut Random) -> Vec<u8> {
    let mut out = Vec::new();
    for _ in 0..r.next(5) {
        let tag = 1 + r.next(4) as u32;
        let value = f32::from_bits((r.next(0x7F00) as u32) << 16);
        prost::encoding::float::encode(tag, &value, &mut out);
    }
    out
}

fn some_joints(r: &mut Random) -> Vec<u8> {
    let mut out = Vec::new();
    for _ in 0..r.next(5) {
        let tag = 1 + r.next(7) as u32;
        let joint = some_floats(r);
        embed(tag, &joint, &mut out);
    }
    out
}

fn some_message(r: &mut Random) -> Vec<u8> {
    let mut out = Vec::new();
    for _ in 0..r.next(6) {
        match r.next(8) {
            0 | 1 => embed(1, &some_floats(r), &mut out),
            2 => embed(2, &some_joints(r), &mut out),
            3 => embed(3, &some_joints(r), &mut out),
            4 | 5 => {
                let shift = r.next(31);
                let t = r.next(u32::MAX as u64) << shift;
                prost::encoding::uint64::encode(4, &t, &mut out)
            }
            6 => prost::encoding::double::encode(5 + r.next(20) as u32, &1.0, &mut out),
            _ => {
                let tag = 5 + r.next(3) as u32;
                prost::encoding::encode_key(tag, WireType::StartGroup, &mut out);
                let inside = some_floats(r);
                out.extend_from_slice(&inside);
                prost::encoding::encode_key(tag, WireType::EndGroup, &mut out);
            }
        }
    }
    out
}

#[test]
fn decoders_agree_on_messages() {
    let mut r = Random(1);
    let mut valid = 0;
    for _ in 0..4000 {
        let bytes = some_message(&mut r);
        assert!(agree(&bytes), "{:02x?}", bytes);
        if RoveControl::decode(&bytes).is_some() {
            valid += 1;
        }
    }
    assert!(valid > 2000, "{}", valid);
}

#[test]
fn decoders_agree_on_damaged_messages() {
    let mut r = Random(2);
    let mut refused = 0;
    for _ in 0..20000 {
        let mut bytes = some_message(&mut r);
        for _ in 0..1 + r.next(3) {
            if bytes.is_empty() {
                bytes.push(r.next(256) as u8);
            }
            let at = r.next(bytes.len() as u64) as usize;
            match r.next(4) {
                0 => bytes[at] = r.next(256) as u8,
                1 => bytes.truncate(at),
                2 => {
                    bytes.remove(at);
                }
                _ => bytes.insert(at, r.next(256) as u8),
            }
        }
        assert!(agree(&bytes), "{:02x?}", bytes);
        if RoveControl::decode(&bytes).is_none() {
            refused += 1;
        }
    }
    assert!(refused > 2000, "{}", refused);
}

#[test]
fn decoders_agree_on_short_inputs() {
    for a in 0..=255u8 {
        assert!(agree(&[a]));
        for b in 0..=255u8 {
            assert!(agree(&[a, b]));
            assert!(agree(&[0x0A, 0x02, a, b]));
            assert!(agree(&[0x12, 0x04, 0x0A, 0x02, a, b]));
            assert!(agree(&[0x2B, a, b, 0x2C]));
        }
    }
}

#[test]
fn decoders_agree_on_deep_groups() {
    for depth in [1usize, 50, 98, 99, 100, 101, 102, 150] {
        let mut bytes = Vec::new();
        for _ in 0..depth {
            prost::encoding::encode_key(9, WireType::StartGroup, &mut bytes);
        }
        for _ in 0..depth {
            prost::encoding::encode_key(9, WireType::EndGroup, &mut bytes);
        }
        assert!(agree(&bytes), "{}", depth);
        let mut inside = Vec::new();
        embed(1, &bytes, &mut inside);
        assert!(agree(&inside), "{}", depth);
    }
}

#[test]
fn decoders_agree_on_a_wide_group() {
    for cut in [0usize, 1] {
        let mut bytes = Vec::new();
        prost::encoding::encode_key(9, WireType::StartGroup, &mut bytes);
        for i in 0..100_000u64 {
            prost::encoding::uint64::encode(3, &i, &mut bytes);
        }
        prost::encoding::encode_key(9, WireType::EndGroup, &mut bytes);
        bytes.truncate(bytes.len() - cut);
        assert_eq!(RoveControl::decode(&bytes).is_some(), cut == 0);
        assert!(agree(&bytes));
    }
}

fn some_bits(r: &mut Random) -> u32 {
    match r.next(5) {
        0 => 0,
        1 => 0x8000_0000,
        _ => (r.next(0x1_0000) as u32) << 16 | r.next(0x1_0000) as u32,
    }
}

fn some_joint(r: &mut Random) -> Option<JointState> {
    if r.next(3) == 0 {
        None
    } else {
        Some(JointState { vel: some_bits(r), pos_deg: some_bits(r), torque: some_bits(r) })
    }
}

fn some_control(r: &mut Random) -> RoveControl {
    RoveControl {
        tracks: if r.next(2) == 0 {
            None
        } else {
            Some(Tracks { left_vel: some_bits(r), right_vel: some_bits(r) })
        },
        flippers: if r.next(2) == 0 {
            None
        } else {
            Some(Flippers {
                fl: some_joint(r),
                fr: some_joint(r),
                rl: some_joint(r),
                rr: some_joint(r),
            })
        },
        ovis: if r.next(2) == 0 {
            None
        } else {
            Some(Ovis {
                act_1: some_joint(r),
                act_2: some_joint(r),
                act_3: some_joint(r),
                act_4: some_joint(r),
                act_5: some_joint(r),
                act_6: some_joint(r),
            })
        },
        timestamp_us: {
            let shift = r.next(64);
            u64::MAX.wrapping_mul(1 + r.next(1000)) >> shift
        },
    }
}

/// Writes a number as `prost` does in the code that it derives: not at all where
/// it is the default.
fn put_float(tag: u32, bits: u32, out: &mut Vec<u8>) {
    let value = f32::from_bits(bits);
    if value != 0.0f32 {
        prost::encoding::float::encode(tag, &value, out);
    }
}

fn put_joint(tag: u32, joint: &Option<JointState>, out: &mut Vec<u8>) {
    if let Some(j) = joint {
        let mut payload = Vec::new();
        put_float(1, j.vel, &mut payload);
        put_float(2, j.pos_deg, &mut payload);
        put_float(3, j.torque, &mut payload);
        embed(tag, &payload, out);
    }
}

fn put_control(m: &RoveControl) -> Vec<u8> {
    let mut out = Vec::new();
    if let Some(t) = &m.tracks {
        let mut payload = Vec::new();
        put_float(1, t.left_vel, &mut payload);
        put_float(2, t.right_vel, &mut payload);
        embed(1, &payload, &mut out);
    }
    if let Some(f) = &m.flippers {
        let mut payload = Vec::new();
        for (i, joint) in [f.fl, f.fr, f.rl, f.rr].iter().enumerate() {
            put_joint(i as u32 + 1, joint, &mut payload);
        }
        embed(2, &payload, &mut out);
    }
    if let Some(o) = &m.ovis {
        let mut payload = Vec::new();
        for (i, joint) in
            [o.act_1, o.act_2, o.act_3, o.act_4, o.act_5, o.act_6].iter().enumerate()
        {
            put_joint(i as u32 + 1, joint, &mut payload);
        }
        embed(3, &payload, &mut out);
    }
    if m.timestamp_us != 0 {
        prost::encoding::uint64::encode(4, &m.timestamp_us, &mut out);
    }
    out
}

fn unsigned_zero(bits: u32) -> u32 {
    if bits == 0x8000_0000 {
        0
    } else {
        bits
    }
}

#[test]
fn encoders_agree_and_round_trip() {
    let mut r = Random(3);
    for _ in 0..5000 {
        let m = some_control(&mut r);
        let bytes = m.encode_to_vec();
        assert_eq!(bytes, put_control(&m));
        let back = RoveControl::decode(&bytes).unwrap();
        assert_eq!(back.timestamp_us, m.timestamp_us);
        assert_eq!(back.encode_to_vec(), bytes);
        if let Some(t) = m.tracks {
            let (left, right) = (unsigned_zero(t.left_vel), unsigned_zero(t.right_vel));
            assert_eq!(back.tracks, Some(Tracks { left_vel: left, right_vel: right }));
            assert_eq!(
                parse_control(&bytes),
                Some(ControlCommand::Normalized(NormalizedDriveCommand {
                    left_norm: Scalar::Single(left),
                    right_norm: Scalar::Single(right),
                }))
            );
        } else {
            assert!(back.tracks.is_none());
        }
    }
}
