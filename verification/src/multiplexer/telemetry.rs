//! The messages of telemetry as they are written, and the proof that the validator
//! takes every one of them and drops what is none.
//!
//! Fields of type `float` and `double` are held as the bit patterns in which they
//! travel. The tags are assumed, like those of the validator.
use vstd::prelude::*;

use crate::multiplexer::proto_registry::Validator;
use crate::wire::{FieldKind, NESTING_LIMIT};

verus! {

/// The state of a drive.
pub struct DriveNode {
    pub node_id: u32,
    pub node_state: u32,
    pub node_temp_c: u32,
    pub motor_temp_c: u32,
    pub motor_amp: u32,
    pub active_errors: u32,
    pub latched_errors: u32,
    pub motor_pos: u32,
}

/// A position: latitude and longitude are doubles, the altitude is a single.
pub struct Position {
    pub lat: u64,
    pub lon: u64,
    pub alt: u32,
}

/// Three singles: a vector, an orientation, or voltage, current and temperature of
/// the battery.
pub struct Triple {
    pub first: u32,
    pub second: u32,
    pub third: u32,
}

/// What navigation reports.
pub struct Navigation {
    pub position: Option<Position>,
    pub orientation: Option<Triple>,
    pub velocity: Option<Triple>,
    pub accel: Option<Triple>,
    pub gyro: Option<Triple>,
}

/// What an inertial unit reports.
pub struct Inertial {
    pub accel: Option<Triple>,
    pub gyro: Option<Triple>,
    pub temp_c: u32,
}

/// What the robot reports: up to eight drives of the tracks, up to six of the arm,
/// navigation, two inertial units and the battery.
pub struct Telemetry {
    pub odrives: Option<Seq<Option<DriveNode>>>,
    pub ovis: Option<Seq<Option<DriveNode>>>,
    pub vn300: Option<Navigation>,
    pub livox_1: Option<Inertial>,
    pub livox_2: Option<Inertial>,
    pub battery: Option<Triple>,
    pub timestamp_us: u64,
}

/// The bytes of the state of a drive.
pub open spec fn drive_bytes(d: DriveNode) -> Seq<u8> {
    crate::encode::uint64_field(1, d.node_id as u64) + crate::encode::uint64_field(
        2,
        d.node_state as u64,
    ) + crate::encode::float_field(3, d.node_temp_c) + crate::encode::float_field(4, d.motor_temp_c)
        + crate::encode::float_field(5, d.motor_amp) + crate::encode::uint64_field(
        6,
        d.active_errors as u64,
    ) + crate::encode::uint64_field(7, d.latched_errors as u64) + crate::encode::float_field(
        8,
        d.motor_pos,
    )
}

/// The bytes of the state of a drive, where there is one.
pub open spec fn drive_payload(d: Option<DriveNode>) -> Option<Seq<u8>> {
    match d {
        Some(d) => Some(drive_bytes(d)),
        None => None,
    }
}

/// The bytes of drives, under the tags from one on.
pub open spec fn drives_bytes(drives: Seq<Option<DriveNode>>) -> Seq<u8>
    decreases drives.len(),
{
    if drives.len() == 0 {
        Seq::empty()
    } else {
        drives_bytes(drives.drop_last()) + crate::encode::message_field(
            drives.len() as u32,
            drive_payload(drives.last()),
        )
    }
}

/// The bytes of three singles.
pub open spec fn triple_bytes(t: Triple) -> Seq<u8> {
    crate::encode::float_field(1, t.first) + crate::encode::float_field(2, t.second)
        + crate::encode::float_field(3, t.third)
}

/// The bytes of three singles, where there are any.
pub open spec fn triple_payload(t: Option<Triple>) -> Option<Seq<u8>> {
    match t {
        Some(t) => Some(triple_bytes(t)),
        None => None,
    }
}

/// The bytes of a position, where there is one.
pub open spec fn position_payload(p: Option<Position>) -> Option<Seq<u8>> {
    match p {
        Some(p) => Some(
            crate::encode::double_field(1, p.lat) + crate::encode::double_field(2, p.lon)
                + crate::encode::float_field(3, p.alt),
        ),
        None => None,
    }
}

/// The bytes of what navigation reports.
pub open spec fn navigation_bytes(n: Navigation) -> Seq<u8> {
    crate::encode::message_field(1, position_payload(n.position)) + crate::encode::message_field(
        2,
        triple_payload(n.orientation),
    ) + crate::encode::message_field(3, triple_payload(n.velocity)) + crate::encode::message_field(
        4,
        triple_payload(n.accel),
    ) + crate::encode::message_field(5, triple_payload(n.gyro))
}

/// The bytes of what an inertial unit reports.
pub open spec fn inertial_bytes(i: Inertial) -> Seq<u8> {
    crate::encode::message_field(1, triple_payload(i.accel)) + crate::encode::message_field(
        2,
        triple_payload(i.gyro),
    ) + crate::encode::float_field(3, i.temp_c)
}

/// The bytes of drives, where there are any.
pub open spec fn drives_payload(drives: Option<Seq<Option<DriveNode>>>) -> Option<Seq<u8>> {
    match drives {
        Some(drives) => Some(drives_bytes(drives)),
        None => None,
    }
}

/// The bytes of what navigation reports, where it does.
pub open spec fn navigation_payload(n: Option<Navigation>) -> Option<Seq<u8>> {
    match n {
        Some(n) => Some(navigation_bytes(n)),
        None => None,
    }
}

/// The bytes of what an inertial unit reports, where it does.
pub open spec fn inertial_payload(i: Option<Inertial>) -> Option<Seq<u8>> {
    match i {
        Some(i) => Some(inertial_bytes(i)),
        None => None,
    }
}

/// The bytes of telemetry.
pub open spec fn telemetry_bytes(t: Telemetry) -> Seq<u8> {
    crate::encode::message_field(1, drives_payload(t.odrives)) + crate::encode::message_field(
        2,
        drives_payload(t.ovis),
    ) + crate::encode::message_field(3, navigation_payload(t.vn300)) + crate::encode::message_field(
        4,
        inertial_payload(t.livox_1),
    ) + crate::encode::message_field(5, inertial_payload(t.livox_2)) + crate::encode::message_field(
        6,
        triple_payload(t.battery),
    ) + crate::encode::uint64_field(7, t.timestamp_us)
}

/// Whether `a` is a valid message of layout `m`, `depth` deep.
#[verifier::opaque]
spec fn holds(m: int, a: Seq<u8>, depth: nat) -> bool {
    crate::wire::message_valid(
        crate::multiplexer::proto_registry::rove_telemetry_layouts(),
        m,
        a,
        (NESTING_LIMIT - depth) as nat,
    )
}

/// What stands under a tag of layout `m`.
spec fn kind(m: int, tag: u32) -> Option<FieldKind> {
    crate::wire::kind_of(
        crate::multiplexer::proto_registry::rove_telemetry_layouts()[m],
        tag,
    )
}

proof fn lemma_kinds()
    ensures
        kind(0, 1) == Some(FieldKind::Message(1)),
        kind(0, 2) == Some(FieldKind::Message(2)),
        kind(0, 3) == Some(FieldKind::Message(4)),
        kind(0, 4) == Some(FieldKind::Message(7)),
        kind(0, 5) == Some(FieldKind::Message(7)),
        kind(0, 6) == Some(FieldKind::Message(6)),
        kind(0, 7) == Some(FieldKind::Varint),
        kind(3, 1) == Some(FieldKind::Varint),
        kind(3, 2) == Some(FieldKind::Varint),
        kind(3, 3) == Some(FieldKind::Fixed32),
        kind(3, 4) == Some(FieldKind::Fixed32),
        kind(3, 5) == Some(FieldKind::Fixed32),
        kind(3, 6) == Some(FieldKind::Varint),
        kind(3, 7) == Some(FieldKind::Varint),
        kind(3, 8) == Some(FieldKind::Fixed32),
        kind(4, 1) == Some(FieldKind::Message(5)),
        kind(4, 2) == Some(FieldKind::Message(6)),
        kind(4, 3) == Some(FieldKind::Message(6)),
        kind(4, 4) == Some(FieldKind::Message(6)),
        kind(4, 5) == Some(FieldKind::Message(6)),
        kind(5, 1) == Some(FieldKind::Fixed64),
        kind(5, 2) == Some(FieldKind::Fixed64),
        kind(5, 3) == Some(FieldKind::Fixed32),
        kind(7, 1) == Some(FieldKind::Message(6)),
        kind(7, 2) == Some(FieldKind::Message(6)),
        kind(7, 3) == Some(FieldKind::Fixed32),
{
    reveal_with_fuel(crate::wire::kind_of, 9);
}

proof fn lemma_numbered_kinds(tag: u32)
    ensures
        1 <= tag <= 8 ==> kind(1, tag) == Some(FieldKind::Message(3)),
        1 <= tag <= 6 ==> kind(2, tag) == Some(FieldKind::Message(3)),
        1 <= tag <= 3 ==> kind(6, tag) == Some(FieldKind::Fixed32),
{
    if 1 <= tag <= 8 {
        crate::command_router::proto::numbered_tags_are_known(8, FieldKind::Message(3), tag);
    }
    if 1 <= tag <= 6 {
        crate::command_router::proto::numbered_tags_are_known(6, FieldKind::Message(3), tag);
    }
    if 1 <= tag <= 3 {
        crate::command_router::proto::numbered_tags_are_known(3, FieldKind::Fixed32, tag);
    }
}

proof fn lemma_nothing(m: int, depth: nat)
    ensures
        holds(m, Seq::empty(), depth),
{
    reveal(holds);
}

proof fn lemma_concat(m: int, a: Seq<u8>, b: Seq<u8>, depth: nat)
    requires
        holds(m, a, depth),
        holds(m, b, depth),
    ensures
        holds(m, a + b, depth),
{
    reveal(holds);
    let layouts = crate::multiplexer::proto_registry::rove_telemetry_layouts();
    let budget = (NESTING_LIMIT - depth) as nat;
    crate::wire::messages_concatenate(layouts[m], a, b, budget);
    let fa = crate::wire::message_fields(layouts[m], a, budget)->0;
    let fb = crate::wire::message_fields(layouts[m], b, budget)->0;
    crate::encode::valid_fields_append(layouts, fa, fb, budget);
}

proof fn lemma_float(m: int, tag: u32, bits: u32, depth: nat)
    requires
        1 <= tag < 16,
        kind(m, tag) == Some(FieldKind::Fixed32),
    ensures
        holds(m, crate::encode::float_field(tag, bits), depth),
        crate::encode::float_field(tag, bits).len() <= 5,
{
    reveal(holds);
    let layouts = crate::multiplexer::proto_registry::rove_telemetry_layouts();
    crate::encode::floats_round_trip(layouts[m], tag, bits, (NESTING_LIMIT - depth) as nat);
}

proof fn lemma_double(m: int, tag: u32, bits: u64, depth: nat)
    requires
        1 <= tag < 16,
        kind(m, tag) == Some(FieldKind::Fixed64),
    ensures
        holds(m, crate::encode::double_field(tag, bits), depth),
        crate::encode::double_field(tag, bits).len() <= 9,
{
    reveal(holds);
    let layouts = crate::multiplexer::proto_registry::rove_telemetry_layouts();
    crate::encode::doubles_round_trip(layouts[m], tag, bits, (NESTING_LIMIT - depth) as nat);
}

proof fn lemma_integer(m: int, tag: u32, v: u64, depth: nat)
    requires
        1 <= tag < 16,
        kind(m, tag) == Some(FieldKind::Varint),
    ensures
        holds(m, crate::encode::uint64_field(tag, v), depth),
        crate::encode::uint64_field(tag, v).len() <= 11,
{
    reveal(holds);
    let layouts = crate::multiplexer::proto_registry::rove_telemetry_layouts();
    crate::encode::integers_round_trip(layouts[m], tag, v, (NESTING_LIMIT - depth) as nat);
    crate::encode::varints_are_short(v);
}

proof fn lemma_message(m: int, tag: u32, c: usize, payload: Option<Seq<u8>>, depth: nat)
    requires
        1 <= tag < 16,
        depth < 10,
        kind(m, tag) == Some(FieldKind::Message(c)),
        payload matches Some(p) ==> holds(c as int, p, depth + 1) && p.len() <= 0xFFFF_FFFF,
    ensures
        holds(m, crate::encode::message_field(tag, payload), depth),
        crate::encode::message_field(tag, payload).len() <= 11 + match payload {
            Some(p) => p.len(),
            None => 0,
        },
{
    reveal(holds);
    let layouts = crate::multiplexer::proto_registry::rove_telemetry_layouts();
    crate::encode::messages_round_trip(
        layouts[m],
        tag,
        c,
        payload,
        (NESTING_LIMIT - depth) as nat,
    );
    if let Some(p) = payload {
        crate::encode::varints_are_short(p.len() as u64);
    }
}

proof fn lemma_drive(d: DriveNode)
    ensures
        holds(3, drive_bytes(d), 2),
        drive_bytes(d).len() <= 64,
{
    lemma_kinds();
    let b1 = crate::encode::uint64_field(1, d.node_id as u64);
    let f2 = crate::encode::uint64_field(2, d.node_state as u64);
    let f3 = crate::encode::float_field(3, d.node_temp_c);
    let f4 = crate::encode::float_field(4, d.motor_temp_c);
    let f5 = crate::encode::float_field(5, d.motor_amp);
    let f6 = crate::encode::uint64_field(6, d.active_errors as u64);
    let f7 = crate::encode::uint64_field(7, d.latched_errors as u64);
    let f8 = crate::encode::float_field(8, d.motor_pos);
    lemma_integer(3, 1, d.node_id as u64, 2);
    lemma_integer(3, 2, d.node_state as u64, 2);
    lemma_float(3, 3, d.node_temp_c, 2);
    lemma_float(3, 4, d.motor_temp_c, 2);
    lemma_float(3, 5, d.motor_amp, 2);
    lemma_integer(3, 6, d.active_errors as u64, 2);
    lemma_integer(3, 7, d.latched_errors as u64, 2);
    lemma_float(3, 8, d.motor_pos, 2);
    lemma_concat(3, b1, f2, 2);
    lemma_concat(3, b1 + f2, f3, 2);
    lemma_concat(3, b1 + f2 + f3, f4, 2);
    lemma_concat(3, b1 + f2 + f3 + f4, f5, 2);
    lemma_concat(3, b1 + f2 + f3 + f4 + f5, f6, 2);
    lemma_concat(3, b1 + f2 + f3 + f4 + f5 + f6, f7, 2);
    lemma_concat(3, b1 + f2 + f3 + f4 + f5 + f6 + f7, f8, 2);
}

/// Drives under the tags from one on, in the layout of those of the tracks or of
/// the arm.
proof fn lemma_drives(m: int, drives: Seq<Option<DriveNode>>)
    requires
        (m == 1 && drives.len() <= 8) || (m == 2 && drives.len() <= 6),
    ensures
        holds(m, drives_bytes(drives), 1),
        drives_bytes(drives).len() <= 75 * drives.len(),
    decreases drives.len(),
{
    if drives.len() == 0 {
        lemma_nothing(m, 1);
    } else {
        let tag = drives.len() as u32;
        lemma_drives(m, drives.drop_last());
        lemma_numbered_kinds(tag);
        if drives.last() is Some {
            lemma_drive(drives.last()->0);
        }
        lemma_message(m, tag, 3, drive_payload(drives.last()), 1);
        lemma_concat(
            m,
            drives_bytes(drives.drop_last()),
            crate::encode::message_field(tag, drive_payload(drives.last())),
            1,
        );
    }
}

proof fn lemma_triple(t: Triple, depth: nat)
    ensures
        holds(6, triple_bytes(t), depth),
        triple_bytes(t).len() <= 15,
{
    lemma_numbered_kinds(1);
    lemma_numbered_kinds(2);
    lemma_numbered_kinds(3);
    lemma_float(6, 1, t.first, depth);
    lemma_float(6, 2, t.second, depth);
    lemma_float(6, 3, t.third, depth);
    let a = crate::encode::float_field(1, t.first);
    let b = crate::encode::float_field(2, t.second);
    lemma_concat(6, a, b, depth);
    lemma_concat(6, a + b, crate::encode::float_field(3, t.third), depth);
}

/// The field under `tag` that holds three singles.
proof fn lemma_triple_field(m: int, tag: u32, t: Option<Triple>, depth: nat)
    requires
        1 <= tag < 16,
        depth < 10,
        kind(m, tag) == Some(FieldKind::Message(6)),
    ensures
        holds(m, crate::encode::message_field(tag, triple_payload(t)), depth),
        crate::encode::message_field(tag, triple_payload(t)).len() <= 26,
{
    if t is Some {
        lemma_triple(t->0, depth + 1);
    }
    lemma_message(m, tag, 6, triple_payload(t), depth);
}

proof fn lemma_position(p: Position)
    ensures
        holds(5, position_payload(Some(p))->0, 2),
        position_payload(Some(p))->0.len() <= 23,
{
    lemma_kinds();
    lemma_double(5, 1, p.lat, 2);
    lemma_double(5, 2, p.lon, 2);
    lemma_float(5, 3, p.alt, 2);
    let a = crate::encode::double_field(1, p.lat);
    let b = crate::encode::double_field(2, p.lon);
    lemma_concat(5, a, b, 2);
    lemma_concat(5, a + b, crate::encode::float_field(3, p.alt), 2);
}

proof fn lemma_navigation(n: Navigation)
    ensures
        holds(4, navigation_bytes(n), 1),
        navigation_bytes(n).len() <= 138,
{
    lemma_kinds();
    if n.position is Some {
        lemma_position(n.position->0);
    }
    lemma_message(4, 1, 5, position_payload(n.position), 1);
    lemma_triple_field(4, 2, n.orientation, 1);
    lemma_triple_field(4, 3, n.velocity, 1);
    lemma_triple_field(4, 4, n.accel, 1);
    lemma_triple_field(4, 5, n.gyro, 1);
    let a = crate::encode::message_field(1, position_payload(n.position));
    let b = crate::encode::message_field(2, triple_payload(n.orientation));
    let c = crate::encode::message_field(3, triple_payload(n.velocity));
    let d = crate::encode::message_field(4, triple_payload(n.accel));
    let e = crate::encode::message_field(5, triple_payload(n.gyro));
    lemma_concat(4, a, b, 1);
    lemma_concat(4, a + b, c, 1);
    lemma_concat(4, a + b + c, d, 1);
    lemma_concat(4, a + b + c + d, e, 1);
}

proof fn lemma_inertial(i: Inertial)
    ensures
        holds(7, inertial_bytes(i), 1),
        inertial_bytes(i).len() <= 57,
{
    lemma_kinds();
    lemma_triple_field(7, 1, i.accel, 1);
    lemma_triple_field(7, 2, i.gyro, 1);
    lemma_float(7, 3, i.temp_c, 1);
    let a = crate::encode::message_field(1, triple_payload(i.accel));
    let b = crate::encode::message_field(2, triple_payload(i.gyro));
    lemma_concat(7, a, b, 1);
    lemma_concat(7, a + b, crate::encode::float_field(3, i.temp_c), 1);
}

/// Whether `a` is valid telemetry without a time stamp.
#[verifier::opaque]
spec fn holds_parts(a: Seq<u8>) -> bool {
    &&& holds(0, a, 0)
    &&& crate::wire::last_varint(
        crate::wire::message_fields(
            crate::multiplexer::proto_registry::rove_telemetry_layouts()[0],
            a,
            NESTING_LIMIT as nat,
        )->0,
        7,
    ) == 0
}

/// Telemetry with a part under `tag` behind it.
proof fn lemma_part(a: Seq<u8>, tag: u32, c: usize, payload: Option<Seq<u8>>)
    requires
        1 <= tag <= 6,
        kind(0, tag) == Some(FieldKind::Message(c)),
        holds_parts(a),
        payload matches Some(p) ==> holds(c as int, p, 1) && p.len() <= 0xFFFF_FFFF,
    ensures
        holds_parts(a + crate::encode::message_field(tag, payload)),
{
    reveal(holds_parts);
    let layouts = crate::multiplexer::proto_registry::rove_telemetry_layouts();
    let budget = NESTING_LIMIT as nat;
    let b = crate::encode::message_field(tag, payload);
    lemma_message(0, tag, c, payload, 0);
    lemma_concat(0, a, b, 0);
    crate::encode::messages_round_trip(layouts[0], tag, c, payload, budget);
    assert(crate::wire::message_fields(layouts[0], a, budget) is Some) by {
        reveal(holds);
    }
    crate::wire::messages_concatenate(layouts[0], a, b, budget);
    crate::encode::later_messages_count(
        crate::wire::message_fields(layouts[0], a, budget)->0,
        tag,
        c,
        payload,
        7,
    );
}

/// Every telemetry message is taken, whichever of its parts it holds and whatever
/// their numbers are, and its time stamp is the one that it was written with.
pub proof fn telemetry_messages_are_taken(t: Telemetry)
    requires
        t.odrives matches Some(drives) ==> drives.len() <= 8,
        t.ovis matches Some(drives) ==> drives.len() <= 6,
    ensures
        Validator::RoveTelemetry.timestamp(telemetry_bytes(t)) == Some(t.timestamp_us),
{
    lemma_kinds();
    let (p1, p2) = (drives_payload(t.odrives), drives_payload(t.ovis));
    let p3 = navigation_payload(t.vn300);
    let (p4, p5) = (inertial_payload(t.livox_1), inertial_payload(t.livox_2));
    let p6 = triple_payload(t.battery);
    if t.odrives is Some {
        lemma_drives(1, t.odrives->0);
    }
    if t.ovis is Some {
        lemma_drives(2, t.ovis->0);
    }
    if t.vn300 is Some {
        lemma_navigation(t.vn300->0);
    }
    if t.livox_1 is Some {
        lemma_inertial(t.livox_1->0);
    }
    if t.livox_2 is Some {
        lemma_inertial(t.livox_2->0);
    }
    if t.battery is Some {
        lemma_triple(t.battery->0, 1);
    }
    let b0 = Seq::<u8>::empty();
    let b1 = b0 + crate::encode::message_field(1, p1);
    let b2 = b1 + crate::encode::message_field(2, p2);
    let b3 = b2 + crate::encode::message_field(3, p3);
    let b4 = b3 + crate::encode::message_field(4, p4);
    let b5 = b4 + crate::encode::message_field(5, p5);
    let b6 = b5 + crate::encode::message_field(6, p6);
    assert(holds_parts(b0)) by {
        reveal(holds_parts);
        lemma_nothing(0, 0);
    }
    lemma_part(b0, 1, 1, p1);
    lemma_part(b1, 2, 2, p2);
    lemma_part(b2, 3, 4, p3);
    lemma_part(b3, 4, 7, p4);
    lemma_part(b4, 5, 7, p5);
    lemma_part(b5, 6, 6, p6);
    let stamp = crate::encode::uint64_field(7, t.timestamp_us);
    assert(b6 + stamp =~= telemetry_bytes(t));
    lemma_stamped(b6, t.timestamp_us);
}

/// Telemetry with its time stamp behind it.
proof fn lemma_stamped(a: Seq<u8>, v: u64)
    requires
        holds_parts(a),
    ensures
        Validator::RoveTelemetry.timestamp(a + crate::encode::uint64_field(7, v)) == Some(v),
{
    reveal(holds_parts);
    lemma_kinds();
    let layouts = crate::multiplexer::proto_registry::rove_telemetry_layouts();
    let budget = NESTING_LIMIT as nat;
    let b = crate::encode::uint64_field(7, v);
    lemma_integer(0, 7, v, 0);
    lemma_concat(0, a, b, 0);
    crate::encode::integers_round_trip(layouts[0], 7, v, budget);
    reveal(holds);
    crate::wire::messages_concatenate(layouts[0], a, b, budget);
    crate::encode::later_integers_count(
        crate::wire::message_fields(layouts[0], a, budget)->0,
        7,
        v,
        7,
    );
}

/// A message that holds an unreadable one is not valid.
proof fn lemma_bad_part(m: int, tag: u32, c: usize, p: Seq<u8>, depth: nat)
    requires
        1 <= tag < 16,
        depth < 10,
        kind(m, tag) == Some(FieldKind::Message(c)),
        p.len() <= 0xFFFF_FFFF,
        !holds(c as int, p, depth + 1),
    ensures
        !holds(m, crate::encode::message_field(tag, Some(p)), depth),
{
    reveal(holds);
    let layouts = crate::multiplexer::proto_registry::rove_telemetry_layouts();
    let budget = (NESTING_LIMIT - depth) as nat;
    crate::encode::messages_round_trip(layouts[m], tag, c, Some(p), budget);
    let fs = crate::encode::message_view(tag, c, Some(p));
    assert(fs[0].value == crate::wire::FieldValue::Message(c, p));
}

proof fn lemma_mistyped(m: int, tag: u32, wire: u32, rest: Seq<u8>, depth: nat)
    requires
        1 <= tag < 16,
        wire < 6,
        match kind(m, tag) {
            Some(FieldKind::Varint) => wire != 0,
            Some(FieldKind::Fixed64) => wire != 1,
            Some(FieldKind::Message(_)) => wire != 2,
            Some(FieldKind::Fixed32) => wire != 5,
            None => false,
        },
    ensures
        !holds(m, seq![crate::encode::key_byte(tag, wire)] + rest, depth),
{
    reveal(holds);
    let layouts = crate::multiplexer::proto_registry::rove_telemetry_layouts();
    crate::encode::mistyped_fields_are_unreadable(
        layouts[m],
        tag,
        wire,
        rest,
        (NESTING_LIMIT - depth) as nat,
    );
}

/// Telemetry in which a part or the time stamp has another wire type than its own
/// is dropped: the six parts are messages (wire type 2), the time stamp is an
/// integer (0).
pub proof fn mistyped_telemetry_is_dropped(tag: u32, wire: u32, rest: Seq<u8>)
    requires
        1 <= tag <= 7,
        wire < 6,
        wire != if tag == 7 {
            0u32
        } else {
            2u32
        },
    ensures
        Validator::RoveTelemetry.timestamp(seq![crate::encode::key_byte(tag, wire)] + rest) is None,
{
    lemma_kinds();
    lemma_mistyped(0, tag, wire, rest, 0);
    reveal(holds);
}

/// Telemetry is dropped where a field of one of its parts has another wire type
/// than its own. The eight drives, the six of the arm, the five parts of
/// navigation and the first two of an inertial unit are messages (2), the
/// temperature of the latter and the three numbers of the battery are singles (5).
pub proof fn mistyped_parts_are_dropped(part: u32, tag: u32, wire: u32, rest: Seq<u8>)
    requires
        wire < 6,
        ({
            ||| part == 1 && 1 <= tag <= 8 && wire != 2
            ||| part == 2 && 1 <= tag <= 6 && wire != 2
            ||| part == 3 && 1 <= tag <= 5 && wire != 2
            ||| (part == 4 || part == 5) && 1 <= tag <= 2 && wire != 2
            ||| (part == 4 || part == 5) && tag == 3 && wire != 5
            ||| part == 6 && 1 <= tag <= 3 && wire != 5
        }),
        rest.len() < 0xFFFF_FFFF,
    ensures
        Validator::RoveTelemetry.timestamp(
            crate::encode::message_field(
                part,
                Some(seq![crate::encode::key_byte(tag, wire)] + rest),
            ),
        ) is None,
{
    lemma_kinds();
    lemma_numbered_kinds(tag);
    let c: usize = if part == 1 {
        1
    } else if part == 2 {
        2
    } else if part == 3 {
        4
    } else if part == 6 {
        6
    } else {
        7
    };
    lemma_mistyped(c as int, tag, wire, rest, 1);
    lemma_bad_part(0, part, c, seq![crate::encode::key_byte(tag, wire)] + rest, 0);
    reveal(holds);
}

/// Telemetry is dropped where a field of a part of its parts has another wire type
/// than its own. Of a drive, the fields 1, 2, 6 and 7 are integers (0) and the
/// others singles (5); of a position, the first two are doubles (1) and the third
/// is a single; all else consists of three singles.
pub proof fn mistyped_details_are_dropped(
    part: u32,
    detail: u32,
    tag: u32,
    wire: u32,
    rest: Seq<u8>,
)
    requires
        wire < 6,
        ({
            ||| ((part == 1 && 1 <= detail <= 8) || (part == 2 && 1 <= detail <= 6)) && 1 <= tag
                <= 8 && wire != if tag <= 2 || tag == 6 || tag == 7 {
                0u32
            } else {
                5u32
            }
            ||| part == 3 && detail == 1 && 1 <= tag <= 3 && wire != if tag == 3 {
                5u32
            } else {
                1u32
            }
            ||| ((part == 3 && 2 <= detail <= 5) || ((part == 4 || part == 5) && 1 <= detail <= 2))
                && 1 <= tag <= 3 && wire != 5
        }),
        rest.len() < 0xFFFF_FF00,
    ensures
        Validator::RoveTelemetry.timestamp(
            crate::encode::message_field(
                part,
                Some(
                    crate::encode::message_field(
                        detail,
                        Some(seq![crate::encode::key_byte(tag, wire)] + rest),
                    ),
                ),
            ),
        ) is None,
{
    lemma_kinds();
    lemma_numbered_kinds(tag);
    lemma_numbered_kinds(detail);
    let outer: usize = if part == 1 {
        1
    } else if part == 2 {
        2
    } else if part == 3 {
        4
    } else {
        7
    };
    let inner: usize = if part <= 2 {
        3
    } else if part == 3 && detail == 1 {
        5
    } else {
        6
    };
    let bytes = seq![crate::encode::key_byte(tag, wire)] + rest;
    lemma_mistyped(inner as int, tag, wire, rest, 2);
    lemma_bad_part(outer as int, detail, inner, bytes, 1);
    crate::encode::varints_are_short(bytes.len() as u64);
    let field = crate::encode::message_field(detail, Some(bytes));
    lemma_bad_part(0, part, outer, field, 0);
    reveal(holds);
}

} // verus!
