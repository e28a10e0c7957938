//! Writing protobuf messages field by field, and what reading gives back.
//!
//! As is usual, a number of zero is not written: a reader takes it for granted.
use vstd::prelude::*;

use crate::wire::{FieldKind, FieldSpec, FieldValue, FieldView};

verus! {

/// The bytes of a variable-length integer.
pub open spec fn varint_bytes(v: nat) -> Seq<u8>
    decreases v,
{
    if v < 128 {
        seq![v as u8]
    } else {
        seq![(v % 128 + 128) as u8] + varint_bytes(v / 128)
    }
}

/// The bytes of a number of four bytes, low byte first.
pub open spec fn le32_bytes(bits: u32) -> Seq<u8> {
    seq![
        (bits % 0x100) as u8,
        (bits / 0x100 % 0x100) as u8,
        (bits / 0x1_0000 % 0x100) as u8,
        (bits / 0x100_0000) as u8,
    ]
}

/// Whether the bits of a single are those of zero, of either sign.
pub open spec fn is_zero(bits: u32) -> bool {
    bits == 0 || bits == 0x8000_0000
}

/// What a reader takes the bits of a single for: zero loses its sign.
pub open spec fn unsigned_zero(bits: u32) -> u32 {
    if is_zero(bits) {
        0
    } else {
        bits
    }
}

/// The key of a field with a small tag.
pub open spec fn key_byte(tag: u32, wire: u32) -> u8 {
    (tag * 8 + wire) as u8
}

/// A field of type `float`.
pub open spec fn float_field(tag: u32, bits: u32) -> Seq<u8> {
    if is_zero(bits) {
        Seq::empty()
    } else {
        seq![key_byte(tag, 5)] + le32_bytes(bits)
    }
}

/// A field of type `uint64`.
pub open spec fn uint64_field(tag: u32, v: u64) -> Seq<u8> {
    if v == 0 {
        Seq::empty()
    } else {
        seq![key_byte(tag, 0)] + varint_bytes(v as nat)
    }
}

/// A field that holds a message, where there is one.
pub open spec fn message_field(tag: u32, payload: Option<Seq<u8>>) -> Seq<u8> {
    match payload {
        Some(p) => seq![key_byte(tag, 2)] + varint_bytes(p.len()) + p,
        None => Seq::empty(),
    }
}

/// What reading a field of type `float` gives.
pub open spec fn float_view(tag: u32, bits: u32) -> Seq<FieldView> {
    if is_zero(bits) {
        Seq::empty()
    } else {
        seq![FieldView { tag, value: FieldValue::Fixed32(bits) }]
    }
}

/// What reading a field of type `uint64` gives.
pub open spec fn uint64_view(tag: u32, v: u64) -> Seq<FieldView> {
    if v == 0 {
        Seq::empty()
    } else {
        seq![FieldView { tag, value: FieldValue::Varint(v) }]
    }
}

/// What reading a field that holds a message gives.
pub open spec fn message_view(tag: u32, c: usize, payload: Option<Seq<u8>>) -> Seq<FieldView> {
    match payload {
        Some(p) => seq![FieldView { tag, value: FieldValue::Message(c, p) }],
        None => Seq::empty(),
    }
}

/// Writes a variable-length integer.
pub fn write_varint(out: &mut Vec<u8>, v: u64)
    ensures
        final(out)@ == old(out)@ + varint_bytes(v as nat),
    decreases v,
{
    if v < 128 {
        out.push(v as u8);
    } else {
        out.push((v % 128 + 128) as u8);
        write_varint(out, v / 128);
    }
    assert(out@ =~= old(out)@ + varint_bytes(v as nat));
}

/// Writes a field of type `float`.
pub fn write_float(out: &mut Vec<u8>, tag: u32, bits: u32)
    requires
        1 <= tag < 16,
    ensures
        final(out)@ == old(out)@ + float_field(tag, bits),
{
    if bits != 0 && bits != 0x8000_0000 {
        out.push((tag * 8 + 5) as u8);
        out.push((bits % 0x100) as u8);
        out.push((bits / 0x100 % 0x100) as u8);
        out.push((bits / 0x1_0000 % 0x100) as u8);
        out.push((bits / 0x100_0000) as u8);
    }
    assert(out@ =~= old(out)@ + float_field(tag, bits));
}

/// Writes a field of type `uint64`.
pub fn write_uint64(out: &mut Vec<u8>, tag: u32, v: u64)
    requires
        1 <= tag < 16,
    ensures
        final(out)@ == old(out)@ + uint64_field(tag, v),
{
    if v != 0 {
        out.push((tag * 8) as u8);
        write_varint(out, v);
    }
    assert(out@ =~= old(out)@ + uint64_field(tag, v));
}

/// Writes a field that holds a message.
pub fn write_message(out: &mut Vec<u8>, tag: u32, payload: &Vec<u8>)
    requires
        1 <= tag < 16,
    ensures
        final(out)@ == old(out)@ + message_field(tag, Some(payload@)),
{
    out.push((tag * 8 + 2) as u8);
    write_varint(out, payload.len() as u64);
    out.extend_from_slice(payload.as_slice());
    assert(out@ =~= old(out)@ + message_field(tag, Some(payload@)));
}

/// One more than the greatest integer for which `count` bytes may stand before
/// the next one.
spec fn room(count: nat) -> nat {
    if count == 0 {
        0x1_0000_0000_0000_0000
    } else if count == 1 {
        0x200_0000_0000_0000
    } else if count == 2 {
        0x4_0000_0000_0000
    } else if count == 3 {
        0x800_0000_0000
    } else if count == 4 {
        0x10_0000_0000
    } else if count == 5 {
        0x2000_0000
    } else if count == 6 {
        0x40_0000
    } else if count == 7 {
        0x8000
    } else if count == 8 {
        0x100
    } else {
        2
    }
}

proof fn lemma_varint_from(v: nat, count: nat, rest: Seq<u8>)
    requires
        count <= 9,
        v < room(count),
    ensures
        crate::wire::varint_from(varint_bytes(v) + rest, count) == Some(
            (v, varint_bytes(v).len()),
        ),
    decreases v,
{
    let s = varint_bytes(v) + rest;
    if v >= 128 {
        lemma_varint_from(v / 128, count + 1, rest);
        assert(s.skip(1) =~= varint_bytes(v / 128) + rest);
        assert(s[0] == (v % 128 + 128) as u8);
    } else {
        assert(s[0] == v as u8);
    }
}

/// Reading a variable-length integer gives back what was written, whatever
/// stands behind it.
pub proof fn varints_round_trip(v: u64, rest: Seq<u8>)
    ensures
        crate::wire::varint(varint_bytes(v as nat) + rest) == Some(
            (v as nat, varint_bytes(v as nat).len()),
        ),
{
    lemma_varint_from(v as nat, 0, rest);
}

proof fn lemma_key(tag: u32, wire: u32, rest: Seq<u8>)
    requires
        1 <= tag < 16,
        wire < 6,
    ensures
        crate::wire::key(seq![key_byte(tag, wire)] + rest) == Some(
            (tag, crate::wire::wire_type(wire as nat)->0, 1nat),
        ),
{
    let s = seq![key_byte(tag, wire)] + rest;
    assert(s[0] == key_byte(tag, wire));
    assert(s[0] == tag * 8 + wire);
    assert(crate::wire::varint(s) == Some((s[0] as nat, 1nat)));
}

/// Reading a field of type `float` gives back what was written.
pub proof fn floats_round_trip(fields: Seq<FieldSpec>, tag: u32, bits: u32, budget: nat)
    requires
        1 <= tag < 16,
        crate::wire::kind_of(fields, tag) == Some(FieldKind::Fixed32),
    ensures
        crate::wire::message_fields(fields, float_field(tag, bits), budget) == Some(
            float_view(tag, bits),
        ),
{
    if !is_zero(bits) {
        let s = float_field(tag, bits);
        let body = le32_bytes(bits);
        lemma_key(tag, 5, body);
        assert(s.skip(1) =~= body);
        assert(crate::wire::le32(body) == bits);
        assert(s.skip(5) =~= Seq::empty());
        assert(seq![FieldView { tag, value: FieldValue::Fixed32(bits) }] + Seq::empty()
            =~= float_view(tag, bits));
        reveal_with_fuel(crate::wire::message_fields, 2);
    }
}

/// Reading a field of type `uint64` gives back what was written.
pub proof fn integers_round_trip(fields: Seq<FieldSpec>, tag: u32, v: u64, budget: nat)
    requires
        1 <= tag < 16,
        crate::wire::kind_of(fields, tag) == Some(FieldKind::Varint),
    ensures
        crate::wire::message_fields(fields, uint64_field(tag, v), budget) == Some(
            uint64_view(tag, v),
        ),
{
    if v != 0 {
        let s = uint64_field(tag, v);
        let body = varint_bytes(v as nat);
        lemma_key(tag, 0, body);
        varints_round_trip(v, Seq::empty());
        assert(body + Seq::empty() =~= body);
        assert(s.skip(1) =~= body);
        assert(s.skip(1 + body.len() as int) =~= Seq::empty());
        assert(seq![FieldView { tag, value: FieldValue::Varint(v) }] + Seq::empty()
            =~= uint64_view(tag, v));
        reveal_with_fuel(crate::wire::message_fields, 2);
    }
}

/// Reading a field that holds a message gives back the bytes of the message.
pub proof fn messages_round_trip(
    fields: Seq<FieldSpec>,
    tag: u32,
    c: usize,
    payload: Option<Seq<u8>>,
    budget: nat,
)
    requires
        1 <= tag < 16,
        crate::wire::kind_of(fields, tag) == Some(FieldKind::Message(c)),
        payload matches Some(p) ==> p.len() <= u64::MAX,
    ensures
        crate::wire::message_fields(fields, message_field(tag, payload), budget) == Some(
            message_view(tag, c, payload),
        ),
{
    if let Some(p) = payload {
        let s = message_field(tag, payload);
        let len = varint_bytes(p.len());
        assert(s =~= seq![key_byte(tag, 2)] + (len + p));
        lemma_key(tag, 2, len + p);
        varints_round_trip(p.len() as u64, p);
        assert(s.skip(1) =~= len + p);
        assert((len + p).subrange(len.len() as int, (len.len() + p.len()) as int) =~= p);
        assert(s.skip((1 + len.len() + p.len()) as int) =~= Seq::empty());
        assert(seq![FieldView { tag, value: FieldValue::Message(c, p) }] + Seq::empty()
            =~= message_view(tag, c, payload));
        reveal_with_fuel(crate::wire::message_fields, 2);
    }
}

/// A field of type `float` behind others counts for its tag, and for no other.
pub proof fn later_floats_count(fs: Seq<FieldView>, t: u32, bits: u32, tag: u32)
    ensures
        crate::wire::last_fixed32(fs + float_view(t, bits), tag) == if t == tag && !is_zero(bits) {
            bits
        } else {
            crate::wire::last_fixed32(fs, tag)
        },
{
    let all = fs + float_view(t, bits);
    if is_zero(bits) {
        assert(all =~= fs);
    } else {
        assert(all.drop_last() =~= fs);
    }
}

/// A field that holds a message behind others counts for its tag, and for no
/// other.
pub proof fn later_messages_count(
    fs: Seq<FieldView>,
    t: u32,
    c: usize,
    payload: Option<Seq<u8>>,
    tag: u32,
)
    ensures
        crate::wire::last_varint(fs + message_view(t, c, payload), tag) == crate::wire::last_varint(
            fs,
            tag,
        ),
        crate::wire::joined_message(fs + message_view(t, c, payload), tag) == if t == tag
            && payload is Some {
            match crate::wire::joined_message(fs, tag) {
                Some(before) => Some(before + payload->0),
                None => payload,
            }
        } else {
            crate::wire::joined_message(fs, tag)
        },
{
    let all = fs + message_view(t, c, payload);
    if payload is Some {
        assert(all.drop_last() =~= fs);
    } else {
        assert(all =~= fs);
    }
}

/// A field of type `uint64` behind others counts for its tag, and for no other.
pub proof fn later_integers_count(fs: Seq<FieldView>, t: u32, v: u64, tag: u32)
    ensures
        crate::wire::last_varint(fs + uint64_view(t, v), tag) == if t == tag && v != 0 {
            v
        } else {
            crate::wire::last_varint(fs, tag)
        },
        crate::wire::joined_message(fs + uint64_view(t, v), tag) == crate::wire::joined_message(
            fs,
            tag,
        ),
{
    let all = fs + uint64_view(t, v);
    if v == 0 {
        assert(all =~= fs);
    } else {
        assert(all.drop_last() =~= fs);
    }
}

/// Whether the messages that fields hold are valid.
pub open spec fn nested_valid(
    layouts: Seq<Seq<FieldSpec>>,
    fs: Seq<FieldView>,
    budget: nat,
) -> bool {
    forall|i: int|
        0 <= i < fs.len() ==> match (#[trigger] fs[i]).value {
            FieldValue::Message(c, payload) => budget > 0 && crate::wire::message_valid(
                layouts,
                c as int,
                payload,
                (budget - 1) as nat,
            ),
            _ => true,
        }
}

/// Fields that hold valid messages, and a field more that does.
pub proof fn valid_fields_append(
    layouts: Seq<Seq<FieldSpec>>,
    fs: Seq<FieldView>,
    more: Seq<FieldView>,
    budget: nat,
)
    requires
        nested_valid(layouts, fs, budget),
        nested_valid(layouts, more, budget),
    ensures
        nested_valid(layouts, fs + more, budget),
{
    assert forall|i: int| 0 <= i < (fs + more).len() implies match (#[trigger] (fs
        + more)[i]).value {
        FieldValue::Message(c, payload) => budget > 0 && crate::wire::message_valid(
            layouts,
            c as int,
            payload,
            (budget - 1) as nat,
        ),
        _ => true,
    } by {
        if i < fs.len() {
            assert((fs + more)[i] == fs[i]);
        } else {
            assert((fs + more)[i] == more[i - fs.len()]);
        }
    }
}

/// Whether the bits of a double are those of zero, of either sign.
pub open spec fn is_zero_double(bits: u64) -> bool {
    bits == 0 || bits == 0x8000_0000_0000_0000
}

/// The bytes of a number of eight bytes, low byte first.
pub open spec fn le64_bytes(bits: u64) -> Seq<u8> {
    le32_bytes((bits % 0x1_0000_0000) as u32) + le32_bytes((bits / 0x1_0000_0000) as u32)
}

/// A field of type `double`.
pub open spec fn double_field(tag: u32, bits: u64) -> Seq<u8> {
    if is_zero_double(bits) {
        Seq::empty()
    } else {
        seq![key_byte(tag, 1)] + le64_bytes(bits)
    }
}

/// What reading a field of type `double` gives.
pub open spec fn double_view(tag: u32, bits: u64) -> Seq<FieldView> {
    if is_zero_double(bits) {
        Seq::empty()
    } else {
        seq![FieldView { tag, value: FieldValue::Fixed64(bits) }]
    }
}

/// Reading a field of type `double` gives back what was written.
pub proof fn doubles_round_trip(fields: Seq<FieldSpec>, tag: u32, bits: u64, budget: nat)
    requires
        1 <= tag < 16,
        crate::wire::kind_of(fields, tag) == Some(FieldKind::Fixed64),
    ensures
        crate::wire::message_fields(fields, double_field(tag, bits), budget) == Some(
            double_view(tag, bits),
        ),
{
    if !is_zero_double(bits) {
        let s = double_field(tag, bits);
        let body = le64_bytes(bits);
        let (low, high) = ((bits % 0x1_0000_0000) as u32, (bits / 0x1_0000_0000) as u32);
        lemma_key(tag, 1, body);
        assert(s.skip(1) =~= body);
        assert(body.skip(4) =~= le32_bytes(high));
        assert(crate::wire::le32(body) == low);
        assert(crate::wire::le32(le32_bytes(high)) == high);
        assert(crate::wire::le64(body) == bits);
        assert(s.skip(9) =~= Seq::empty());
        assert(seq![FieldView { tag, value: FieldValue::Fixed64(bits) }] + Seq::empty()
            =~= double_view(tag, bits));
        reveal_with_fuel(crate::wire::message_fields, 2);
    }
}

proof fn lemma_varint_len_bound(s: Seq<u8>, count: nat)
    requires
        count <= 10,
    ensures
        crate::wire::varint_from(s, count) matches Some((v, n)) ==> n <= 10 - count,
    decreases 10 - count,
{
    if s.len() > 0 && count < 10 && s[0] >= 128 {
        lemma_varint_len_bound(s.skip(1), count + 1);
    }
}

/// A variable-length integer takes ten bytes at most.
pub proof fn varints_are_short(v: u64)
    ensures
        varint_bytes(v as nat).len() <= 10,
{
    varints_round_trip(v, Seq::empty());
    lemma_varint_len_bound(varint_bytes(v as nat) + Seq::empty(), 0);
}

/// A field with a known tag in a wire type that is not that of its kind makes a
/// message unreadable, whatever stands behind its key.
pub proof fn mistyped_fields_are_unreadable(
    fields: Seq<FieldSpec>,
    tag: u32,
    wire: u32,
    rest: Seq<u8>,
    budget: nat,
)
    requires
        1 <= tag < 16,
        wire < 6,
        match crate::wire::kind_of(fields, tag) {
            Some(FieldKind::Varint) => wire != 0,
            Some(FieldKind::Fixed64) => wire != 1,
            Some(FieldKind::Message(_)) => wire != 2,
            Some(FieldKind::Fixed32) => wire != 5,
            None => false,
        },
    ensures
        crate::wire::message_fields(fields, seq![key_byte(tag, wire)] + rest, budget) is None,
{
    lemma_key(tag, wire, rest);
    let s = seq![key_byte(tag, wire)] + rest;
    assert(s.skip(1) =~= rest);
}

/// An integer under a tag that a message does not know is read past.
pub proof fn unknown_integers_are_skipped(fields: Seq<FieldSpec>, tag: u32, v: u64, budget: nat)
    requires
        1 <= tag < 16,
        budget > 0,
        crate::wire::kind_of(fields, tag) is None,
    ensures
        crate::wire::message_fields(
            fields,
            seq![key_byte(tag, 0)] + varint_bytes(v as nat),
            budget,
        ) == Some(seq![FieldView { tag, value: FieldValue::Skipped }]),
{
    let body = varint_bytes(v as nat);
    let s = seq![key_byte(tag, 0)] + body;
    lemma_key(tag, 0, body);
    varints_round_trip(v, Seq::empty());
    assert(body + Seq::empty() =~= body);
    assert(s.skip(1) =~= body);
    assert(s.skip(1 + body.len() as int) =~= Seq::empty());
    assert(seq![FieldView { tag, value: FieldValue::Skipped }] + Seq::empty() =~= seq![
        FieldView { tag, value: FieldValue::Skipped },
    ]);
    reveal_with_fuel(crate::wire::message_fields, 2);
}

/// A field under a tag that a message does not know is read past, whatever it holds:
/// an integer, eight bytes, as many bytes as it says, a group without fields, or four
/// bytes.
pub proof fn unknown_fields_are_read_past(
    fields: Seq<FieldSpec>,
    tag: u32,
    wire: u32,
    body: Seq<u8>,
    v: u64,
    payload: Seq<u8>,
    budget: nat,
)
    requires
        1 <= tag < 16,
        budget > 0,
        crate::wire::kind_of(fields, tag) is None,
        payload.len() <= u64::MAX,
        ({
            ||| wire == 0 && body == varint_bytes(v as nat)
            ||| wire == 1 && body.len() == 8
            ||| wire == 2 && body == varint_bytes(payload.len()) + payload
            ||| wire == 3 && body == seq![key_byte(tag, 4)]
            ||| wire == 5 && body.len() == 4
        }),
    ensures
        crate::wire::message_fields(fields, seq![key_byte(tag, wire)] + body, budget) == Some(
            seq![FieldView { tag, value: FieldValue::Skipped }],
        ),
{
    let s = seq![key_byte(tag, wire)] + body;
    lemma_key(tag, wire, body);
    assert(s.skip(1) =~= body);
    if wire == 0 {
        varints_round_trip(v, Seq::empty());
        assert(body + Seq::empty() =~= body);
    } else if wire == 2 {
        varints_round_trip(payload.len() as u64, payload);
    } else if wire == 3 {
        lemma_key(tag, 4, Seq::empty());
        assert(seq![key_byte(tag, 4)] + Seq::empty() =~= body);
    }
    assert(crate::wire::skip_len(
        crate::wire::wire_type(wire as nat)->0,
        tag,
        body,
        budget,
    ) == Some(body.len()));
    assert(s.skip(1 + body.len() as int) =~= Seq::empty());
    assert(seq![FieldView { tag, value: FieldValue::Skipped }] + Seq::empty() =~= seq![
        FieldView { tag, value: FieldValue::Skipped },
    ]);
    reveal_with_fuel(crate::wire::message_fields, 2);
}

/// What ends in the middle of a field is no message, whether the tag of the field is
/// known or not: a number of four or eight bytes that has fewer, bytes of which there
/// are fewer than announced, or the end of a group that was not started.
pub proof fn truncated_fields_are_unreadable(
    fields: Seq<FieldSpec>,
    tag: u32,
    wire: u32,
    body: Seq<u8>,
    announced: u64,
    payload: Seq<u8>,
    budget: nat,
)
    requires
        1 <= tag < 16,
        ({
            ||| wire == 1 && body.len() < 8
            ||| wire == 2 && body == varint_bytes(announced as nat) + payload && payload.len()
                < announced
            ||| wire == 4
            ||| wire == 5 && body.len() < 4
        }),
    ensures
        crate::wire::message_fields(fields, seq![key_byte(tag, wire)] + body, budget) is None,
{
    let s = seq![key_byte(tag, wire)] + body;
    lemma_key(tag, wire, body);
    assert(s.skip(1) =~= body);
    if wire == 2 {
        varints_round_trip(announced, payload);
    }
}

/// Numbers of four and eight bytes travel with their low byte first.
pub proof fn numbers_travel_low_byte_first(bits: u32, wide: u64, s: Seq<u8>)
    requires
        s.len() >= 8,
    ensures
        le32_bytes(bits).len() == 4,
        le32_bytes(bits)[0] + 0x100 * le32_bytes(bits)[1] + 0x1_0000 * le32_bytes(bits)[2]
            + 0x100_0000 * le32_bytes(bits)[3] == bits,
        crate::wire::le32(s) == s[0] + 0x100 * s[1] + 0x1_0000 * s[2] + 0x100_0000 * s[3],
        crate::wire::le64(s) == crate::wire::le32(s) + 0x1_0000_0000 * crate::wire::le32(
            s.skip(4),
        ),
        le64_bytes(wide).len() == 8,
        crate::wire::le64(le64_bytes(wide)) == wide,
{
    let (low, high) = ((wide % 0x1_0000_0000) as u32, (wide / 0x1_0000_0000) as u32);
    let body = le64_bytes(wide);
    assert(body.skip(4) =~= le32_bytes(high));
    assert(crate::wire::le32(body) == low);
    assert(crate::wire::le32(le32_bytes(high)) == high);
}

} // verus!
