//! The messages that the multiplexer can validate.
use vstd::prelude::*;

use crate::command_router::proto::{numbered_fields, RoveControl};
use crate::text::same_text;
use crate::wire::{is_valid, read_fields, read_varint, FieldKind, FieldSpec, Schema, NESTING_LIMIT};

verus! {

/// The tag of the time stamp in `RoveTelemetry`. Like all tags of telemetry in
/// this file it is assumed: they count the fields in the order in which the
/// messages name them, and are to be held against the schema that the robot
/// uses.
pub const TELEMETRY_TIMESTAMP_TAG: u32 = 7;

/// The layouts of telemetry, `RoveTelemetry` first: drives, arm, navigation,
/// two inertial units, battery and time stamp. Then the drives, the arm, a
/// drive, navigation, a position, three floats, an inertial unit. The tags are
/// assumed.
pub open spec fn rove_telemetry_layouts() -> Seq<Seq<FieldSpec>> {
    seq![
        seq![
            FieldSpec { tag: 1, kind: FieldKind::Message(1) },
            FieldSpec { tag: 2, kind: FieldKind::Message(2) },
            FieldSpec { tag: 3, kind: FieldKind::Message(4) },
            FieldSpec { tag: 4, kind: FieldKind::Message(7) },
            FieldSpec { tag: 5, kind: FieldKind::Message(7) },
            FieldSpec { tag: 6, kind: FieldKind::Message(6) },
            FieldSpec { tag: TELEMETRY_TIMESTAMP_TAG, kind: FieldKind::Varint },
        ],
        crate::command_router::proto::numbered(8, FieldKind::Message(3)),
        crate::command_router::proto::numbered(6, FieldKind::Message(3)),
        seq![
            FieldSpec { tag: 1, kind: FieldKind::Varint },
            FieldSpec { tag: 2, kind: FieldKind::Varint },
            FieldSpec { tag: 3, kind: FieldKind::Fixed32 },
            FieldSpec { tag: 4, kind: FieldKind::Fixed32 },
            FieldSpec { tag: 5, kind: FieldKind::Fixed32 },
            FieldSpec { tag: 6, kind: FieldKind::Varint },
            FieldSpec { tag: 7, kind: FieldKind::Varint },
            FieldSpec { tag: 8, kind: FieldKind::Fixed32 },
        ],
        seq![
            FieldSpec { tag: 1, kind: FieldKind::Message(5) },
            FieldSpec { tag: 2, kind: FieldKind::Message(6) },
            FieldSpec { tag: 3, kind: FieldKind::Message(6) },
            FieldSpec { tag: 4, kind: FieldKind::Message(6) },
            FieldSpec { tag: 5, kind: FieldKind::Message(6) },
        ],
        seq![
            FieldSpec { tag: 1, kind: FieldKind::Fixed64 },
            FieldSpec { tag: 2, kind: FieldKind::Fixed64 },
            FieldSpec { tag: 3, kind: FieldKind::Fixed32 },
        ],
        crate::command_router::proto::numbered(3, FieldKind::Fixed32),
        seq![
            FieldSpec { tag: 1, kind: FieldKind::Message(6) },
            FieldSpec { tag: 2, kind: FieldKind::Message(6) },
            FieldSpec { tag: 3, kind: FieldKind::Fixed32 },
        ],
    ]
}

/// The schema of `RoveTelemetry`.
pub fn rove_telemetry_schema() -> (r: Schema)
    ensures
        r.layouts() == rove_telemetry_layouts(),
        r.messages@.len() == 8,
        crate::wire::layouts_closed(r.layouts()),
{
    let top = vec![
        FieldSpec { tag: 1, kind: FieldKind::Message(1) },
        FieldSpec { tag: 2, kind: FieldKind::Message(2) },
        FieldSpec { tag: 3, kind: FieldKind::Message(4) },
        FieldSpec { tag: 4, kind: FieldKind::Message(7) },
        FieldSpec { tag: 5, kind: FieldKind::Message(7) },
        FieldSpec { tag: 6, kind: FieldKind::Message(6) },
        FieldSpec { tag: TELEMETRY_TIMESTAMP_TAG, kind: FieldKind::Varint },
    ];
    let drive = vec![
        FieldSpec { tag: 1, kind: FieldKind::Varint },
        FieldSpec { tag: 2, kind: FieldKind::Varint },
        FieldSpec { tag: 3, kind: FieldKind::Fixed32 },
        FieldSpec { tag: 4, kind: FieldKind::Fixed32 },
        FieldSpec { tag: 5, kind: FieldKind::Fixed32 },
        FieldSpec { tag: 6, kind: FieldKind::Varint },
        FieldSpec { tag: 7, kind: FieldKind::Varint },
        FieldSpec { tag: 8, kind: FieldKind::Fixed32 },
    ];
    let navigation = vec![
        FieldSpec { tag: 1, kind: FieldKind::Message(5) },
        FieldSpec { tag: 2, kind: FieldKind::Message(6) },
        FieldSpec { tag: 3, kind: FieldKind::Message(6) },
        FieldSpec { tag: 4, kind: FieldKind::Message(6) },
        FieldSpec { tag: 5, kind: FieldKind::Message(6) },
    ];
    let position = vec![
        FieldSpec { tag: 1, kind: FieldKind::Fixed64 },
        FieldSpec { tag: 2, kind: FieldKind::Fixed64 },
        FieldSpec { tag: 3, kind: FieldKind::Fixed32 },
    ];
    let inertial = vec![
        FieldSpec { tag: 1, kind: FieldKind::Message(6) },
        FieldSpec { tag: 2, kind: FieldKind::Message(6) },
        FieldSpec { tag: 3, kind: FieldKind::Fixed32 },
    ];
    let ghost layouts = rove_telemetry_layouts();
    assert(top@ =~= layouts[0]);
    assert(drive@ =~= layouts[3]);
    assert(navigation@ =~= layouts[4]);
    assert(position@ =~= layouts[5]);
    assert(inertial@ =~= layouts[7]);
    let mut messages: Vec<Vec<FieldSpec>> = Vec::new();
    messages.push(top);
    messages.push(numbered_fields(8, FieldKind::Message(3)));
    messages.push(numbered_fields(6, FieldKind::Message(3)));
    messages.push(drive);
    messages.push(navigation);
    messages.push(position);
    messages.push(numbered_fields(3, FieldKind::Fixed32));
    messages.push(inertial);
    let r = Schema { messages };
    assert(r.layouts() =~= layouts);
    r
}

/// The time stamp of the control message in `bytes`; `None` where there is none.
pub open spec fn rove_control_timestamp(bytes: Seq<u8>) -> Option<u64> {
    match crate::command_router::proto::rove_control(bytes) {
        Some(m) => Some(m.timestamp_us),
        None => None,
    }
}

/// The time stamp of the telemetry message in `bytes`; `None` where there is
/// none.
pub open spec fn rove_telemetry_timestamp(bytes: Seq<u8>) -> Option<u64> {
    let layouts = rove_telemetry_layouts();
    let budget = NESTING_LIMIT as nat;
    if crate::wire::message_valid(layouts, 0, bytes, budget) {
        Some(
            crate::wire::last_varint(
                crate::wire::message_fields(layouts[0], bytes, budget)->0,
                TELEMETRY_TIMESTAMP_TAG,
            ),
        )
    } else {
        None
    }
}

/// A kind of message that can be validated.
#[derive(Clone, Copy, Debug, PartialEq, Eq, Structural)]
pub enum Validator {
    RoveControl,
    RoveTelemetry,
}

impl Validator {
    /// The time stamp of the message in `bytes`; `None` where it is not valid.
    pub open spec fn timestamp(self, bytes: Seq<u8>) -> Option<u64> {
        match self {
            Validator::RoveControl => rove_control_timestamp(bytes),
            Validator::RoveTelemetry => rove_telemetry_timestamp(bytes),
        }
    }

    /// Validates a message and reads its time stamp.
    pub fn validate(&self, bytes: &[u8]) -> (r: Option<u64>)
        ensures
            r == self.timestamp(bytes@),
    {
        match self {
            Validator::RoveControl => validate_rove_control(bytes),
            Validator::RoveTelemetry => validate_rove_telemetry(bytes),
        }
    }
}

/// Validates a control message and reads its time stamp.
pub fn validate_rove_control(bytes: &[u8]) -> (r: Option<u64>)
    ensures
        r == rove_control_timestamp(bytes@),
{
    match RoveControl::decode(bytes) {
        Some(m) => Some(m.timestamp_us),
        None => None,
    }
}

/// Validates a telemetry message and reads its time stamp.
pub fn validate_rove_telemetry(bytes: &[u8]) -> (r: Option<u64>)
    ensures
        r == rove_telemetry_timestamp(bytes@),
{
    let schema = rove_telemetry_schema();
    if !is_valid(&schema, 0, bytes, NESTING_LIMIT) {
        return None;
    }
    assert(schema.messages@[0]@ == schema.layouts()[0]);
    match read_fields(&schema.messages[0], bytes, NESTING_LIMIT) {
        Some(fs) => Some(read_varint(&fs, TELEMETRY_TIMESTAMP_TAG)),
        None => None,
    }
}

/// The validator of the messages that a file describes.
pub open spec fn validator_named(name: Seq<char>) -> Option<Validator> {
    if name == "RoveControl.proto"@ {
        Some(Validator::RoveControl)
    } else if name == "RoveTelemetry.proto"@ {
        Some(Validator::RoveTelemetry)
    } else {
        None
    }
}

/// Whether `entries` are the validators with the names of their files.
pub open spec fn is_registry(entries: Seq<(&'static str, Validator)>) -> bool {
    &&& entries.len() == 2
    &&& entries[0].0@ == "RoveControl.proto"@
    &&& entries[0].1 == Validator::RoveControl
    &&& entries[1].0@ == "RoveTelemetry.proto"@
    &&& entries[1].1 == Validator::RoveTelemetry
}

/// All validators, with the names of the files that describe their messages.
pub fn registry() -> (r: Vec<(&'static str, Validator)>)
    ensures
        is_registry(r@),
{
    let mut m: Vec<(&'static str, Validator)> = Vec::new();
    m.push(("RoveControl.proto", Validator::RoveControl));
    m.push(("RoveTelemetry.proto", Validator::RoveTelemetry));
    m
}

/// The validator of the first entry under `name`.
pub open spec fn first_named(
    entries: Seq<(&'static str, Validator)>,
    name: Seq<char>,
) -> Option<Validator>
    decreases entries.len(),
{
    if entries.len() == 0 {
        None
    } else if entries[0].0@ == name {
        Some(entries[0].1)
    } else {
        first_named(entries.skip(1), name)
    }
}

/// The validator of the first entry under `name`.
pub fn lookup(registry: &Vec<(&'static str, Validator)>, name: &str) -> (r: Option<Validator>)
    ensures
        r == first_named(registry@, name@),
{
    assert(registry@.skip(0) =~= registry@);
    for i in 0..registry.len()
        invariant
            first_named(registry@, name@) == first_named(registry@.skip(i as int), name@),
    {
        assert(registry@.skip(i as int)[0] == registry@[i as int]);
        assert(registry@.skip(i as int).skip(1) =~= registry@.skip(i + 1));
        if same_text(registry[i].0, name) {
            return Some(registry[i].1);
        }
    }
    None
}

/// Looking a name up in the list of all validators finds the validator of that
/// name.
pub proof fn registry_holds_the_validators(
    entries: Seq<(&'static str, Validator)>,
    name: Seq<char>,
)
    requires
        is_registry(entries),
    ensures
        first_named(entries, name) == validator_named(name),
{
    reveal_with_fuel(first_named, 3);
}

/// Every control message is taken, whichever of its parts it holds and whatever
/// their numbers are, and its time stamp is the one that it was written with.
pub proof fn control_messages_are_taken(m: RoveControl)
    ensures
        Validator::RoveControl.timestamp(
            crate::command_router::proto_encoding::control_bytes(m),
        ) == Some(m.timestamp_us),
{
    crate::command_router::proto_encoding::control_messages_round_trip(m);
}

/// A control message is taken exactly where it can be read, with the time stamp
/// that is read.
pub proof fn control_messages_are_taken_where_they_are_read(bytes: Seq<u8>)
    ensures
        match crate::command_router::proto::rove_control(bytes) {
            Some(m) => Validator::RoveControl.timestamp(bytes) == Some(m.timestamp_us),
            None => Validator::RoveControl.timestamp(bytes) is None,
        },
{
}

/// Two validators are known by the names of their files, and no other name is.
pub proof fn files_name_their_validator(name: Seq<char>)
    ensures
        validator_named("RoveControl.proto"@) == Some(Validator::RoveControl),
        validator_named("RoveTelemetry.proto"@) == Some(Validator::RoveTelemetry),
        name != "RoveControl.proto"@ && name != "RoveTelemetry.proto"@ ==> validator_named(
            name,
        ) is None,
{
    reveal_strlit("RoveControl.proto");
    reveal_strlit("RoveTelemetry.proto");
    assert("RoveControl.proto"@.len() != "RoveTelemetry.proto"@.len());
}

/// What starts with a byte that can be no key, because its tag would be zero, is
/// dropped by either validator. What is empty is a message without fields.
pub proof fn what_has_no_key_is_dropped(v: Validator, bytes: Seq<u8>)
    ensures
        bytes.len() > 0 && bytes[0] < 8 ==> v.timestamp(bytes) is None,
        bytes.len() == 0 ==> v.timestamp(bytes) == Some(0u64),
{
    if bytes.len() == 0 {
        assert(bytes =~= Seq::empty());
    }
}

/// An integer under a tag that neither message knows is no reason to drop one, and
/// leaves its time stamp alone: messages may have fields that are newer than the
/// validator.
pub proof fn unknown_fields_are_skipped(v: Validator, bytes: Seq<u8>, tag: u32, n: u64)
    requires
        8 <= tag < 16,
        v.timestamp(bytes) is Some,
    ensures
        v.timestamp(
            bytes + (seq![crate::encode::key_byte(tag, 0)] + crate::encode::varint_bytes(
                n as nat,
            )),
        ) == v.timestamp(bytes),
{
    match v {
        Validator::RoveControl => {
            let layouts = crate::command_router::proto::rove_control_layouts();
            assert(crate::wire::kind_of(layouts[0], tag) is None) by {
                reveal_with_fuel(crate::wire::kind_of, 5);
            }
            lemma_unknown_field(layouts, bytes, tag, n, 4);
        },
        Validator::RoveTelemetry => {
            let layouts = rove_telemetry_layouts();
            assert(crate::wire::kind_of(layouts[0], tag) is None) by {
                reveal_with_fuel(crate::wire::kind_of, 8);
            }
            lemma_unknown_field(layouts, bytes, tag, n, TELEMETRY_TIMESTAMP_TAG);
        },
    }
}

/// A message with an integer under an unknown tag behind it.
proof fn lemma_unknown_field(
    layouts: Seq<Seq<FieldSpec>>,
    bytes: Seq<u8>,
    tag: u32,
    n: u64,
    other: u32,
)
    requires
        8 <= tag < 16,
        crate::wire::kind_of(layouts[0], tag) is None,
        crate::wire::message_valid(layouts, 0, bytes, NESTING_LIMIT as nat),
    ensures
        ({
            let all = bytes + (seq![crate::encode::key_byte(tag, 0)] + crate::encode::varint_bytes(
                n as nat,
            ));
            let budget = NESTING_LIMIT as nat;
            &&& crate::wire::message_valid(layouts, 0, all, budget)
            &&& crate::wire::last_varint(
                crate::wire::message_fields(layouts[0], all, budget)->0,
                other,
            ) == crate::wire::last_varint(
                crate::wire::message_fields(layouts[0], bytes, budget)->0,
                other,
            )
        }),
{
    let budget = NESTING_LIMIT as nat;
    let more = seq![crate::encode::key_byte(tag, 0)] + crate::encode::varint_bytes(n as nat);
    crate::encode::unknown_integers_are_skipped(layouts[0], tag, n, budget);
    crate::wire::messages_concatenate(layouts[0], bytes, more, budget);
    let fs = crate::wire::message_fields(layouts[0], bytes, budget)->0;
    let skipped = crate::wire::message_fields(layouts[0], more, budget)->0;
    crate::encode::valid_fields_append(layouts, fs, skipped, budget);
    assert((fs + skipped).drop_last() =~= fs);
}

} // verus!
