//! The protobuf wire format.
//!
//! A message is a run of fields: a key, which names a tag and a wire type, and
//! a value in the notation of that wire type. Keys and variable-length integers
//! are read by `prost`; what a message of a given layout may hold is decided
//! here.
use vstd::prelude::*;

verus! {

/// How deep messages and groups may nest.
pub const NESTING_LIMIT: u32 = 100;

/// The wire type of a field.
#[derive(Clone, Copy, Debug, PartialEq, Eq, Structural)]
pub enum WireType {
    Varint,
    SixtyFourBit,
    LengthDelimited,
    StartGroup,
    EndGroup,
    ThirtyTwoBit,
}

/// The variable-length integer at the start of `s` and the number of bytes that
/// it takes, where `count` bytes of it have been read before: seven bits a byte,
/// low bits first, the top bit set on every byte but the last, ten bytes and 64
/// bits at most.
pub open spec fn varint_from(s: Seq<u8>, count: nat) -> Option<(nat, nat)>
    decreases 10 - count,
{
    if s.len() == 0 || count >= 10 {
        None
    } else if s[0] < 128 {
        if count == 9 && s[0] >= 2 {
            None
        } else {
            Some((s[0] as nat, 1))
        }
    } else {
        match varint_from(s.skip(1), count + 1) {
            Some((v, n)) => Some(((s[0] - 128 + 128 * v) as nat, n + 1)),
            None => None,
        }
    }
}

/// The variable-length integer at the start of `s` and its length.
pub open spec fn varint(s: Seq<u8>) -> Option<(nat, nat)> {
    varint_from(s, 0)
}

/// The wire type that a number stands for.
pub open spec fn wire_type(n: nat) -> Option<WireType> {
    if n == 0 {
        Some(WireType::Varint)
    } else if n == 1 {
        Some(WireType::SixtyFourBit)
    } else if n == 2 {
        Some(WireType::LengthDelimited)
    } else if n == 3 {
        Some(WireType::StartGroup)
    } else if n == 4 {
        Some(WireType::EndGroup)
    } else if n == 5 {
        Some(WireType::ThirtyTwoBit)
    } else {
        None
    }
}

/// The key at the start of `s`: its tag, its wire type and its length. A tag is
/// positive and takes 29 bits.
pub open spec fn key(s: Seq<u8>) -> Option<(u32, WireType, nat)> {
    match varint(s) {
        Some((v, n)) => if v <= u32::MAX && v / 8 >= 1 && wire_type(v % 8) is Some {
            Some(((v / 8) as u32, wire_type(v % 8)->0, n))
        } else {
            None
        },
        None => None,
    }
}

proof fn lemma_varint_len(s: Seq<u8>, count: nat)
    ensures
        varint_from(s, count) matches Some((v, n)) ==> 1 <= n <= s.len(),
    decreases 10 - count,
{
    if s.len() > 0 && count < 10 && s[0] >= 128 {
        lemma_varint_len(s.skip(1), count + 1);
    }
}

/// The number of bytes behind a key of an unknown tag that belong to its field,
/// where groups may nest `budget` deep.
pub open spec fn skip_len(wire: WireType, tag: u32, s: Seq<u8>, budget: nat) -> Option<nat>
    decreases budget, s.len(), 1nat,
{
    if budget == 0 {
        None
    } else {
        match wire {
            WireType::Varint => match varint(s) {
                Some((v, n)) => Some(n),
                None => None,
            },
            WireType::SixtyFourBit => if s.len() >= 8 {
                Some(8)
            } else {
                None
            },
            WireType::LengthDelimited => match varint(s) {
                Some((v, n)) => if n + v <= s.len() {
                    Some(n + v)
                } else {
                    None
                },
                None => None,
            },
            WireType::StartGroup => group_len(tag, s, budget),
            WireType::EndGroup => None,
            WireType::ThirtyTwoBit => if s.len() >= 4 {
                Some(4)
            } else {
                None
            },
        }
    }
}

/// The number of bytes up to and including the end of the group `tag`.
pub open spec fn group_len(tag: u32, s: Seq<u8>, budget: nat) -> Option<nat>
    decreases budget, s.len(), 0nat,
{
    if budget == 0 {
        None
    } else {
        match key(s) {
            Some((inner, wire, n)) => if wire == WireType::EndGroup {
                if inner == tag {
                    Some(n)
                } else {
                    None
                }
            } else {
                match skip_len(wire, inner, s.skip(n as int), (budget - 1) as nat) {
                    Some(m) => if 1 <= n + m <= s.len() {
                        match group_len(tag, s.skip((n + m) as int), budget) {
                            Some(k) => Some(n + m + k),
                            None => None,
                        }
                    } else {
                        None
                    },
                    None => None,
                }
            },
            None => None,
        }
    }
}

/// Calls `prost::encoding::decode_varint` on a slice: the integer at its start
/// and what stands behind it, or nothing where no integer of at most ten bytes
/// and 64 bits stands there.
#[verifier::external_body]
fn take_varint(s: &[u8]) -> (r: Option<(u64, &[u8])>)
    ensures
        match r {
            Some((v, rest)) => varint(s@) matches Some((value, n)) && v == value && rest@
                == s@.skip(n as int),
            None => varint(s@) is None,
        },
{
    let mut rest = s;
    match prost::encoding::decode_varint(&mut rest) {
        Ok(v) => Some((v, rest)),
        Err(_) => None,
    }
}

/// Calls `prost::encoding::decode_key` on a slice: tag and wire type of the key
/// at its start and what stands behind it, or nothing where no key stands there.
#[verifier::external_body]
fn take_key(s: &[u8]) -> (r: Option<(u32, WireType, &[u8])>)
    ensures
        match r {
            Some((tag, wire, rest)) => key(s@) matches Some((t, w, n)) && tag == t && wire == w
                && rest@ == s@.skip(n as int),
            None => key(s@) is None,
        },
{
    let mut rest = s;
    match prost::encoding::decode_key(&mut rest) {
        Ok((tag, prost::encoding::WireType::Varint)) => Some((tag, WireType::Varint, rest)),
        Ok((tag, prost::encoding::WireType::SixtyFourBit)) => Some((tag, WireType::SixtyFourBit, rest)),
        Ok((tag, prost::encoding::WireType::LengthDelimited)) => Some((tag, WireType::LengthDelimited, rest)),
        Ok((tag, prost::encoding::WireType::StartGroup)) => Some((tag, WireType::StartGroup, rest)),
        Ok((tag, prost::encoding::WireType::EndGroup)) => Some((tag, WireType::EndGroup, rest)),
        Ok((tag, prost::encoding::WireType::ThirtyTwoBit)) => Some((tag, WireType::ThirtyTwoBit, rest)),
        Err(_) => None,
    }
}

/// What remains of `s` once its first `n` bytes are read.
fn drop_bytes(s: &[u8], n: usize) -> (r: Option<&[u8]>)
    ensures
        match r {
            Some(rest) => n <= s@.len() && rest@ == s@.skip(n as int),
            None => n > s@.len(),
        },
{
    if n <= s.len() {
        Some(vstd::slice::slice_subrange(s, n, s.len()))
    } else {
        None
    }
}

/// Whether `rest` is what reading `len` bytes of `s` leaves.
pub open spec fn leaves(s: Seq<u8>, len: Option<nat>, rest: Option<&[u8]>) -> bool {
    match rest {
        Some(rest) => len matches Some(n) && n <= s.len() && rest@ == s.skip(n as int),
        None => len is None,
    }
}

/// Reads past the value of a field with an unknown tag.
fn skip_value<'a>(wire: WireType, tag: u32, s: &'a [u8], budget: u32) -> (r: Option<&'a [u8]>)
    ensures
        leaves(s@, skip_len(wire, tag, s@, budget as nat), r),
    decreases budget, s@.len(), 1nat,
{
    if budget == 0 {
        return None;
    }
    proof {
        lemma_varint_len(s@, 0);
    }
    match wire {
        WireType::Varint => match take_varint(s) {
            Some((_, rest)) => Some(rest),
            None => None,
        },
        WireType::SixtyFourBit => drop_bytes(s, 8),
        WireType::LengthDelimited => match take_varint(s) {
            Some((v, rest)) => {
                if v > rest.len() as u64 {
                    None
                } else {
                    let r = drop_bytes(rest, v as usize);
                    proof {
                        let (value, n) = varint(s@)->0;
                        assert(s@.skip(n as int).skip(v as int) =~= s@.skip((n + v) as int));
                    }
                    r
                }
            },
            None => None,
        },
        WireType::StartGroup => skip_group(tag, s, budget),
        WireType::EndGroup => None,
        WireType::ThirtyTwoBit => drop_bytes(s, 4),
    }
}

/// Reads past the rest of the group `tag`.
fn skip_group<'a>(tag: u32, s: &'a [u8], budget: u32) -> (r: Option<&'a [u8]>)
    ensures
        leaves(s@, group_len(tag, s@, budget as nat), r),
    decreases budget, s@.len(), 0nat,
{
    if budget == 0 {
        return None;
    }
    let mut rest = s;
    let ghost mut read: int = 0;
    let ghost whole = group_len(tag, s@, budget as nat);
    assert(s@.skip(0) =~= s@);
    loop
        invariant
            budget > 0,
            whole == group_len(tag, s@, budget as nat),
            0 <= read <= s@.len(),
            rest@ == s@.skip(read),
            whole == match group_len(tag, rest@, budget as nat) {
                Some(k) => Some((read + k) as nat),
                None => None,
            },
        decreases rest@.len(),
    {
        proof {
            lemma_varint_len(rest@, 0);
        }
        let ghost before = rest@;
        match take_key(rest) {
            Some((inner, wire, behind)) => {
                let ghost (_, _, n) = key(before)->0;
                match wire {
                    WireType::EndGroup => {
                        if inner == tag {
                            assert(behind@ =~= s@.skip(read + n));
                            return Some(behind);
                        }
                        return None;
                    },
                    _ => match skip_value(wire, inner, behind, budget - 1) {
                        Some(next) => {
                            proof {
                                let m = skip_len(wire, inner, behind@, (budget - 1) as nat)->0;
                                assert(next@ =~= before.skip((n + m) as int));
                                read = read + n + m;
                                assert(next@ =~= s@.skip(read));
                            }
                            rest = next;
                        },
                        None => {
                            return None;
                        },
                    },
                }
            },
            None => {
                return None;
            },
        }
    }
}

/// What stands under a known tag.
#[derive(Clone, Copy, Debug, PartialEq, Eq, Structural)]
pub enum FieldKind {
    /// A variable-length integer.
    Varint,
    /// Four bytes, low byte first.
    Fixed32,
    /// Eight bytes, low byte first.
    Fixed64,
    /// An embedded message of the layout with this number.
    Message(usize),
}

/// A known tag of a message.
#[derive(Clone, Copy, Debug, PartialEq, Eq, Structural)]
pub struct FieldSpec {
    pub tag: u32,
    pub kind: FieldKind,
}

/// The layouts of the messages of a schema, numbered from 0.
#[derive(Debug)]
pub struct Schema {
    pub messages: Vec<Vec<FieldSpec>>,
}

impl Schema {
    /// The known tags of each message.
    pub open spec fn layouts(&self) -> Seq<Seq<FieldSpec>> {
        Seq::new(self.messages@.len(), |m: int| self.messages@[m]@)
    }
}

/// Every embedded message has a layout.
pub open spec fn layouts_closed(layouts: Seq<Seq<FieldSpec>>) -> bool {
    forall|m: int, i: int|
        0 <= m < layouts.len() && 0 <= i < layouts[m].len() ==> (
        (#[trigger] layouts[m][i]).kind matches FieldKind::Message(c) ==> c < layouts.len())
}

/// What the first entry for `tag` says of it.
pub open spec fn kind_of(fields: Seq<FieldSpec>, tag: u32) -> Option<FieldKind>
    decreases fields.len(),
{
    if fields.len() == 0 {
        None
    } else if fields[0].tag == tag {
        Some(fields[0].kind)
    } else {
        kind_of(fields.skip(1), tag)
    }
}

fn find_kind(fields: &Vec<FieldSpec>, tag: u32) -> (r: Option<FieldKind>)
    ensures
        r == kind_of(fields@, tag),
        r is Some ==> exists|i: int|
            0 <= i < fields@.len() && (#[trigger] fields@[i]).kind == r->0,
{
    assert(fields@.skip(0) =~= fields@);
    for i in 0..fields.len()
        invariant
            kind_of(fields@, tag) == kind_of(fields@.skip(i as int), tag),
    {
        assert(fields@.skip(i as int)[0] == fields@[i as int]);
        assert(fields@.skip(i as int).skip(1) =~= fields@.skip(i + 1));
        if fields[i].tag == tag {
            return Some(fields[i].kind);
        }
    }
    None
}

/// The value of a field as it stands in a message.
pub enum FieldValue {
    Varint(u64),
    Fixed32(u32),
    Fixed64(u64),
    Message(usize, Seq<u8>),
    /// The value of an unknown tag.
    Skipped,
}

/// A field of a message.
pub struct FieldView {
    pub tag: u32,
    pub value: FieldValue,
}

/// The integer in the first four bytes of `s`, low byte first.
pub open spec fn le32(s: Seq<u8>) -> u32 {
    (s[0] + 0x100 * s[1] + 0x1_0000 * s[2] + 0x100_0000 * s[3]) as u32
}

/// The integer in the first eight bytes of `s`, low byte first.
pub open spec fn le64(s: Seq<u8>) -> u64 {
    (le32(s) + 0x1_0000_0000 * le32(s.skip(4))) as u64
}

/// The value behind a key, and its length.
pub open spec fn value_at(
    fields: Seq<FieldSpec>,
    tag: u32,
    wire: WireType,
    s: Seq<u8>,
    budget: nat,
) -> Option<(FieldValue, nat)> {
    match kind_of(fields, tag) {
        None => match skip_len(wire, tag, s, budget) {
            Some(n) => Some((FieldValue::Skipped, n)),
            None => None,
        },
        Some(FieldKind::Varint) => match varint(s) {
            Some((v, n)) => if wire == WireType::Varint {
                Some((FieldValue::Varint(v as u64), n))
            } else {
                None
            },
            None => None,
        },
        Some(FieldKind::Fixed32) => if wire == WireType::ThirtyTwoBit && s.len() >= 4 {
            Some((FieldValue::Fixed32(le32(s)), 4))
        } else {
            None
        },
        Some(FieldKind::Fixed64) => if wire == WireType::SixtyFourBit && s.len() >= 8 {
            Some((FieldValue::Fixed64(le64(s)), 8))
        } else {
            None
        },
        Some(FieldKind::Message(c)) => match varint(s) {
            Some((v, n)) => if wire == WireType::LengthDelimited && n + v <= s.len() {
                Some((FieldValue::Message(c, s.subrange(n as int, (n + v) as int)), n + v))
            } else {
                None
            },
            None => None,
        },
    }
}

/// The fields that `s` holds, in order; `None` where some bytes are no field.
pub open spec fn message_fields(fields: Seq<FieldSpec>, s: Seq<u8>, budget: nat) -> Option<
    Seq<FieldView>,
>
    decreases s.len(),
{
    if s.len() == 0 {
        Some(Seq::empty())
    } else {
        match key(s) {
            Some((tag, wire, n)) => match value_at(fields, tag, wire, s.skip(n as int), budget) {
                Some((value, m)) => if 1 <= n + m <= s.len() {
                    match message_fields(fields, s.skip((n + m) as int), budget) {
                        Some(rest) => Some(seq![FieldView { tag, value }] + rest),
                        None => None,
                    }
                } else {
                    None
                },
                None => None,
            },
            None => None,
        }
    }
}

/// Whether `s` is a message of layout `m`, down to the last embedded message.
pub open spec fn message_valid(
    layouts: Seq<Seq<FieldSpec>>,
    m: int,
    s: Seq<u8>,
    budget: nat,
) -> bool
    decreases budget,
{
    match message_fields(layouts[m], s, budget) {
        Some(fs) => forall|i: int|
            0 <= i < fs.len() ==> match (#[trigger] fs[i]).value {
                FieldValue::Message(c, payload) => budget > 0 && message_valid(
                    layouts,
                    c as int,
                    payload,
                    (budget - 1) as nat,
                ),
                _ => true,
            },
        None => false,
    }
}

/// The value that `tag` has in a message, that of its last occurrence; 0 where
/// there is none.
pub open spec fn last_varint(fs: Seq<FieldView>, tag: u32) -> u64
    decreases fs.len(),
{
    if fs.len() == 0 {
        0
    } else {
        match fs.last().value {
            FieldValue::Varint(v) => if fs.last().tag == tag {
                v
            } else {
                last_varint(fs.drop_last(), tag)
            },
            _ => last_varint(fs.drop_last(), tag),
        }
    }
}

/// The same for a field of four bytes.
pub open spec fn last_fixed32(fs: Seq<FieldView>, tag: u32) -> u32
    decreases fs.len(),
{
    if fs.len() == 0 {
        0
    } else {
        match fs.last().value {
            FieldValue::Fixed32(v) => if fs.last().tag == tag {
                v
            } else {
                last_fixed32(fs.drop_last(), tag)
            },
            _ => last_fixed32(fs.drop_last(), tag),
        }
    }
}

/// The embedded message under `tag`: all its occurrences one behind the other,
/// or `None` where there is none. Later fields win over earlier ones, so this is
/// the merge of the occurrences.
pub open spec fn joined_message(fs: Seq<FieldView>, tag: u32) -> Option<Seq<u8>>
    decreases fs.len(),
{
    if fs.len() == 0 {
        None
    } else {
        let before = joined_message(fs.drop_last(), tag);
        match fs.last().value {
            FieldValue::Message(c, payload) => if fs.last().tag == tag {
                match before {
                    Some(p) => Some(p + payload),
                    None => Some(payload),
                }
            } else {
                before
            },
            _ => before,
        }
    }
}

/// The value of a field, borrowed from the message that holds it.
#[derive(Clone, Copy, Debug)]
pub enum FieldContent<'a> {
    Varint(u64),
    Fixed32(u32),
    Fixed64(u64),
    Message(usize, &'a [u8]),
    Skipped,
}

/// A field, borrowed from the message that holds it.
#[derive(Clone, Copy, Debug)]
pub struct Field<'a> {
    pub tag: u32,
    pub value: FieldContent<'a>,
}

impl<'a> View for Field<'a> {
    type V = FieldView;

    open spec fn view(&self) -> FieldView {
        FieldView {
            tag: self.tag,
            value: match self.value {
                FieldContent::Varint(v) => FieldValue::Varint(v),
                FieldContent::Fixed32(v) => FieldValue::Fixed32(v),
                FieldContent::Fixed64(v) => FieldValue::Fixed64(v),
                FieldContent::Message(c, payload) => FieldValue::Message(c, payload@),
                FieldContent::Skipped => FieldValue::Skipped,
            },
        }
    }
}

/// The views of borrowed fields.
pub open spec fn field_views(fs: Seq<Field<'_>>) -> Seq<FieldView> {
    Seq::new(fs.len(), |i: int| fs[i]@)
}

fn read_le32(s: &[u8]) -> (r: u32)
    requires
        s@.len() >= 4,
    ensures
        r == le32(s@),
{
    s[0] as u32 + 0x100 * (s[1] as u32) + 0x1_0000 * (s[2] as u32) + 0x100_0000 * (s[3] as u32)
}

fn read_le64(s: &[u8]) -> (r: u64)
    requires
        s@.len() >= 8,
    ensures
        r == le64(s@),
{
    let high = vstd::slice::slice_subrange(s, 4, s.len());
    assert(high@ =~= s@.skip(4));
    read_le32(s) as u64 + 0x1_0000_0000 * (read_le32(high) as u64)
}

proof fn lemma_varint_bound(s: Seq<u8>, count: nat)
    ensures
        varint_from(s, count) matches Some((v, n)) ==> v <= u64::MAX,
        varint_from(s, count) matches Some((v, n)) ==> {
            &&& count == 9 ==> v < 2
            &&& count == 8 ==> v < 0x100
            &&& count == 7 ==> v < 0x8000
            &&& count == 6 ==> v < 0x40_0000
            &&& count == 5 ==> v < 0x2000_0000
            &&& count == 4 ==> v < 0x10_0000_0000
            &&& count == 3 ==> v < 0x800_0000_0000
            &&& count == 2 ==> v < 0x4_0000_0000_0000
            &&& count == 1 ==> v < 0x200_0000_0000_0000
        },
    decreases 10 - count,
{
    if s.len() > 0 && count < 10 && s[0] >= 128 {
        lemma_varint_bound(s.skip(1), count + 1);
    }
}

/// Reads the value behind a key and hands back what stands behind it.
fn take_value<'a>(fields: &Vec<FieldSpec>, tag: u32, wire: WireType, s: &'a [u8], budget: u32) -> (r:
    Option<(FieldContent<'a>, &'a [u8])>)
    ensures
        match r {
            Some((value, rest)) => {
                &&& value_at(fields@, tag, wire, s@, budget as nat) matches Some((v, n))
                &&& Field { tag, value }@.value == v
                &&& n <= s@.len()
                &&& rest@ == s@.skip(n as int)
            },
            None => value_at(fields@, tag, wire, s@, budget as nat) is None,
        },
        r matches Some((FieldContent::Message(c, _), _)) ==> exists|i: int|
            0 <= i < fields@.len() && (#[trigger] fields@[i]).kind == FieldKind::Message(c),
{
    proof {
        lemma_varint_len(s@, 0);
        lemma_varint_bound(s@, 0);
    }
    match find_kind(fields, tag) {
        None => match skip_value(wire, tag, s, budget) {
            Some(rest) => Some((FieldContent::Skipped, rest)),
            None => None,
        },
        Some(FieldKind::Varint) => match take_varint(s) {
            Some((v, rest)) => {
                if wire == WireType::Varint {
                    Some((FieldContent::Varint(v), rest))
                } else {
                    None
                }
            },
            None => None,
        },
        Some(FieldKind::Fixed32) => {
            if wire == WireType::ThirtyTwoBit && s.len() >= 4 {
                Some((FieldContent::Fixed32(read_le32(s)), vstd::slice::slice_subrange(s, 4, s.len())))
            } else {
                None
            }
        },
        Some(FieldKind::Fixed64) => {
            if wire == WireType::SixtyFourBit && s.len() >= 8 {
                Some((FieldContent::Fixed64(read_le64(s)), vstd::slice::slice_subrange(s, 8, s.len())))
            } else {
                None
            }
        },
        Some(FieldKind::Message(c)) => match take_varint(s) {
            Some((v, rest)) => {
                if wire == WireType::LengthDelimited && v <= rest.len() as u64 {
                    let len = v as usize;
                    let payload = vstd::slice::slice_subrange(rest, 0, len);
                    let behind = vstd::slice::slice_subrange(rest, len, rest.len());
                    proof {
                        let (value, n) = varint(s@)->0;
                        assert(payload@ =~= s@.subrange(n as int, (n + v) as int));
                        assert(behind@ =~= s@.skip((n + v) as int));
                    }
                    Some((FieldContent::Message(c, payload), behind))
                } else {
                    None
                }
            },
            None => None,
        },
    }
}

/// Reads the fields of a message.
pub fn read_fields<'a>(fields: &Vec<FieldSpec>, s: &'a [u8], budget: u32) -> (r: Option<
    Vec<Field<'a>>,
>)
    ensures
        match r {
            Some(fs) => message_fields(fields@, s@, budget as nat) == Some(field_views(fs@)),
            None => message_fields(fields@, s@, budget as nat) is None,
        },
        r matches Some(fs) ==> forall|j: int|
            0 <= j < fs@.len() ==> ((#[trigger] fs@[j]).value matches FieldContent::Message(c, _) ==> exists|
                i: int,
            |
                0 <= i < fields@.len() && (#[trigger] fields@[i]).kind == FieldKind::Message(c)),
{
    let mut out: Vec<Field<'a>> = Vec::new();
    let mut rest = s;
    let ghost whole = message_fields(fields@, s@, budget as nat);
    assert(field_views(out@) =~= Seq::<FieldView>::empty());
    proof {
        if whole is Some {
            assert(Seq::<FieldView>::empty() + whole->0 =~= whole->0);
        }
    }
    while rest.len() > 0
        invariant
            whole == message_fields(fields@, s@, budget as nat),
            whole == match message_fields(fields@, rest@, budget as nat) {
                Some(tail) => Some(field_views(out@) + tail),
                None => None,
            },
            forall|j: int|
                0 <= j < out@.len() ==> ((#[trigger] out@[j]).value matches FieldContent::Message(c, _)
                    ==> exists|i: int|
                    0 <= i < fields@.len() && (#[trigger] fields@[i]).kind == FieldKind::Message(
                        c,
                    )),
        decreases rest@.len(),
    {
        proof {
            lemma_varint_len(rest@, 0);
        }
        let ghost before = rest@;
        match take_key(rest) {
            Some((tag, wire, behind)) => {
                let ghost (_, _, n) = key(before)->0;
                match take_value(fields, tag, wire, behind, budget) {
                    Some((value, tail)) => {
                        let field = Field { tag, value };
                        let ghost old_out = out@;
                        out.push(field);
                        proof {
                            let (v, m) = value_at(
                                fields@,
                                tag,
                                wire,
                                behind@,
                                budget as nat,
                            )->0;
                            assert(tail@ =~= before.skip((n + m) as int));
                            assert(field_views(out@) =~= field_views(old_out) + seq![field@]);
                            if let Some(more) = message_fields(fields@, tail@, budget as nat) {
                                assert(field_views(old_out) + (seq![field@] + more) =~= field_views(
                                    out@,
                                ) + more);
                            }
                        }
                        rest = tail;
                    },
                    None => {
                        return None;
                    },
                }
            },
            None => {
                return None;
            },
        }
    }
    assert(field_views(out@) + Seq::<FieldView>::empty() =~= field_views(out@));
    Some(out)
}

/// Whether `s` is a message of layout `m`, down to the last embedded message.
pub fn is_valid(schema: &Schema, m: usize, s: &[u8], budget: u32) -> (r: bool)
    requires
        layouts_closed(schema.layouts()),
        m < schema.messages@.len(),
    ensures
        r == message_valid(schema.layouts(), m as int, s@, budget as nat),
    decreases budget,
{
    let ghost layouts = schema.layouts();
    assert(layouts[m as int] == schema.messages@[m as int]@);
    match read_fields(&schema.messages[m], s, budget) {
        None => false,
        Some(fs) => {
            for i in 0..fs.len()
                invariant
                    layouts == schema.layouts(),
                    layouts_closed(layouts),
                    m < schema.messages@.len(),
                    message_fields(layouts[m as int], s@, budget as nat) == Some(field_views(fs@)),
                    forall|j: int|
                        0 <= j < fs@.len() ==> ((#[trigger] fs@[j]).value matches FieldContent::Message(
                            c,
                            _,
                        ) ==> exists|k: int|
                            0 <= k < layouts[m as int].len() && (
                            #[trigger] layouts[m as int][k]).kind == FieldKind::Message(c)),
                    forall|j: int|
                        0 <= j < i ==> match (#[trigger] field_views(fs@)[j]).value {
                            FieldValue::Message(c, payload) => budget > 0 && message_valid(
                                layouts,
                                c as int,
                                payload,
                                (budget - 1) as nat,
                            ),
                            _ => true,
                        },
            {
                assert(field_views(fs@)[i as int] == fs@[i as int]@);
                match fs[i].value {
                    FieldContent::Message(c, payload) => {
                        if budget == 0 || !is_valid(schema, c, payload, budget - 1) {
                            return false;
                        }
                    },
                    _ => {},
                }
            }
            true
        },
    }
}

/// Reads the value that `tag` has in a message.
pub fn read_varint(fs: &Vec<Field<'_>>, tag: u32) -> (r: u64)
    ensures
        r == last_varint(field_views(fs@), tag),
{
    let mut v: u64 = 0;
    let ghost views = field_views(fs@);
    for i in 0..fs.len()
        invariant
            views == field_views(fs@),
            v == last_varint(views.take(i as int), tag),
    {
        assert(views.take(i + 1).drop_last() =~= views.take(i as int));
        assert(views.take(i + 1).last() == fs@[i as int]@);
        match fs[i].value {
            FieldContent::Varint(x) => {
                if fs[i].tag == tag {
                    v = x;
                }
            },
            _ => {},
        }
    }
    assert(views.take(fs@.len() as int) =~= views);
    v
}

/// Reads the four bytes that `tag` has in a message.
pub fn read_fixed32(fs: &Vec<Field<'_>>, tag: u32) -> (r: u32)
    ensures
        r == last_fixed32(field_views(fs@), tag),
{
    let mut v: u32 = 0;
    let ghost views = field_views(fs@);
    for i in 0..fs.len()
        invariant
            views == field_views(fs@),
            v == last_fixed32(views.take(i as int), tag),
    {
        assert(views.take(i + 1).drop_last() =~= views.take(i as int));
        assert(views.take(i + 1).last() == fs@[i as int]@);
        match fs[i].value {
            FieldContent::Fixed32(x) => {
                if fs[i].tag == tag {
                    v = x;
                }
            },
            _ => {},
        }
    }
    assert(views.take(fs@.len() as int) =~= views);
    v
}

/// Joins the occurrences of the embedded message under `tag`.
pub fn read_message(fs: &Vec<Field<'_>>, tag: u32) -> (r: Option<Vec<u8>>)
    ensures
        match r {
            Some(bytes) => joined_message(field_views(fs@), tag) == Some(bytes@),
            None => joined_message(field_views(fs@), tag) is None,
        },
{
    let mut out: Option<Vec<u8>> = None;
    let ghost views = field_views(fs@);
    for i in 0..fs.len()
        invariant
            views == field_views(fs@),
            match out {
                Some(bytes) => joined_message(views.take(i as int), tag) == Some(bytes@),
                None => joined_message(views.take(i as int), tag) is None,
            },
    {
        assert(views.take(i + 1).drop_last() =~= views.take(i as int));
        assert(views.take(i + 1).last() == fs@[i as int]@);
        match fs[i].value {
            FieldContent::Message(_, payload) => {
                if fs[i].tag == tag {
                    out = match out {
                        Some(mut bytes) => {
                            bytes.extend_from_slice(payload);
                            Some(bytes)
                        },
                        None => Some(vstd::slice::slice_to_vec(payload)),
                    };
                }
            },
            _ => {},
        }
    }
    assert(views.take(fs@.len() as int) =~= views);
    out
}

proof fn lemma_varint_prefix(a: Seq<u8>, b: Seq<u8>, count: nat)
    requires
        varint_from(a, count) is Some,
    ensures
        varint_from(a + b, count) == varint_from(a, count),
    decreases 10 - count,
{
    if a[0] >= 128 {
        lemma_varint_prefix(a.skip(1), b, count + 1);
        assert((a + b).skip(1) =~= a.skip(1) + b);
    }
}

proof fn lemma_skip_prefix(wire: WireType, tag: u32, a: Seq<u8>, b: Seq<u8>, budget: nat)
    requires
        skip_len(wire, tag, a, budget) is Some,
    ensures
        skip_len(wire, tag, a + b, budget) == skip_len(wire, tag, a, budget),
    decreases budget, a.len(), 1nat,
{
    match wire {
        WireType::Varint => lemma_varint_prefix(a, b, 0),
        WireType::LengthDelimited => lemma_varint_prefix(a, b, 0),
        WireType::StartGroup => lemma_group_prefix(tag, a, b, budget),
        _ => {},
    }
}

proof fn lemma_group_prefix(tag: u32, a: Seq<u8>, b: Seq<u8>, budget: nat)
    requires
        group_len(tag, a, budget) is Some,
    ensures
        group_len(tag, a + b, budget) == group_len(tag, a, budget),
    decreases budget, a.len(), 0nat,
{
    lemma_varint_prefix(a, b, 0);
    lemma_varint_len(a, 0);
    let (inner, wire, n) = key(a)->0;
    if wire != WireType::EndGroup {
        let m = skip_len(wire, inner, a.skip(n as int), (budget - 1) as nat)->0;
        lemma_skip_prefix(wire, inner, a.skip(n as int), b, (budget - 1) as nat);
        assert((a + b).skip(n as int) =~= a.skip(n as int) + b);
        lemma_group_prefix(tag, a.skip((n + m) as int), b, budget);
        assert((a + b).skip((n + m) as int) =~= a.skip((n + m) as int) + b);
    }
}

proof fn lemma_value_prefix(
    fields: Seq<FieldSpec>,
    tag: u32,
    wire: WireType,
    a: Seq<u8>,
    b: Seq<u8>,
    budget: nat,
)
    requires
        value_at(fields, tag, wire, a, budget) is Some,
    ensures
        value_at(fields, tag, wire, a + b, budget) == value_at(fields, tag, wire, a, budget),
{
    match kind_of(fields, tag) {
        None => lemma_skip_prefix(wire, tag, a, b, budget),
        Some(FieldKind::Varint) => lemma_varint_prefix(a, b, 0),
        Some(FieldKind::Fixed32) => {},
        Some(FieldKind::Fixed64) => {},
        Some(FieldKind::Message(c)) => {
            lemma_varint_prefix(a, b, 0);
            let (v, n) = varint(a)->0;
            assert((a + b).subrange(n as int, (n + v) as int) =~= a.subrange(
                n as int,
                (n + v) as int,
            ));
        },
    }
}

/// Two messages one behind the other are one message, which holds the fields of
/// the first and then those of the second.
pub proof fn messages_concatenate(
    fields: Seq<FieldSpec>,
    a: Seq<u8>,
    b: Seq<u8>,
    budget: nat,
)
    requires
        message_fields(fields, a, budget) is Some,
        message_fields(fields, b, budget) is Some,
    ensures
        message_fields(fields, a + b, budget) == Some(
            message_fields(fields, a, budget)->0 + message_fields(fields, b, budget)->0,
        ),
    decreases a.len(),
{
    if a.len() == 0 {
        assert(a + b =~= b);
        assert(Seq::<FieldView>::empty() + message_fields(fields, b, budget)->0 =~= message_fields(
            fields,
            b,
            budget,
        )->0);
    } else {
        lemma_varint_prefix(a, b, 0);
        lemma_varint_len(a, 0);
        let (tag, wire, n) = key(a)->0;
        lemma_value_prefix(fields, tag, wire, a.skip(n as int), b, budget);
        assert((a + b).skip(n as int) =~= a.skip(n as int) + b);
        let (value, m) = value_at(fields, tag, wire, a.skip(n as int), budget)->0;
        messages_concatenate(fields, a.skip((n + m) as int), b, budget);
        assert((a + b).skip((n + m) as int) =~= a.skip((n + m) as int) + b);
        let tail = message_fields(fields, a.skip((n + m) as int), budget)->0;
        let second = message_fields(fields, b, budget)->0;
        assert(seq![FieldView { tag, value }] + (tail + second) =~= (seq![FieldView { tag, value }]
            + tail) + second);
    }
}

proof fn lemma_field_kinds(fields: Seq<FieldSpec>, s: Seq<u8>, budget: nat)
    requires
        message_fields(fields, s, budget) is Some,
    ensures
        forall|i: int|
            0 <= i < message_fields(fields, s, budget)->0.len() ==> ((
            #[trigger] message_fields(fields, s, budget)->0[i]).value matches FieldValue::Message(
                c,
                _,
            ) ==> kind_of(fields, message_fields(fields, s, budget)->0[i].tag) == Some(
                FieldKind::Message(c),
            )),
    decreases s.len(),
{
    if s.len() > 0 {
        let (tag, wire, n) = key(s)->0;
        let (value, m) = value_at(fields, tag, wire, s.skip(n as int), budget)->0;
        lemma_field_kinds(fields, s.skip((n + m) as int), budget);
        let tail = message_fields(fields, s.skip((n + m) as int), budget)->0;
        let all = message_fields(fields, s, budget)->0;
        assert forall|i: int| 0 <= i < all.len() implies ((
        #[trigger] all[i]).value matches FieldValue::Message(c, _) ==> kind_of(fields, all[i].tag)
            == Some(FieldKind::Message(c))) by {
            if i > 0 {
                assert(all[i] == tail[i - 1]);
            }
        }
    }
}

proof fn lemma_joined_prefix(
    layouts: Seq<Seq<FieldSpec>>,
    c: usize,
    fs: Seq<FieldView>,
    tag: u32,
    budget: nat,
)
    requires
        forall|i: int|
            0 <= i < fs.len() && (#[trigger] fs[i]).tag == tag ==> match fs[i].value {
                FieldValue::Message(k, payload) => k == c && message_valid(
                    layouts,
                    c as int,
                    payload,
                    budget,
                ),
                _ => true,
            },
    ensures
        joined_message(fs, tag) matches Some(p) ==> message_valid(layouts, c as int, p, budget),
    decreases fs.len(),
{
    if fs.len() > 0 {
        lemma_joined_prefix(layouts, c, fs.drop_last(), tag, budget);
        let before = joined_message(fs.drop_last(), tag);
        if let FieldValue::Message(k, payload) = fs.last().value {
            if fs.last().tag == tag && before is Some {
                let p = before->0;
                messages_concatenate(layouts[c as int], p, payload, budget);
                let first = message_fields(layouts[c as int], p, budget)->0;
                let second = message_fields(layouts[c as int], payload, budget)->0;
                let all = first + second;
                assert forall|i: int| 0 <= i < all.len() implies match (#[trigger] all[i]).value {
                    FieldValue::Message(d, q) => budget > 0 && message_valid(
                        layouts,
                        d as int,
                        q,
                        (budget - 1) as nat,
                    ),
                    _ => true,
                } by {
                    if i < first.len() {
                        assert(all[i] == first[i]);
                    } else {
                        assert(all[i] == second[i - first.len()]);
                    }
                }
            }
        }
    }
}

/// The occurrences of an embedded message in a valid message join to a valid
/// message.
pub proof fn joined_message_is_valid(
    layouts: Seq<Seq<FieldSpec>>,
    m: int,
    s: Seq<u8>,
    budget: nat,
    tag: u32,
    c: usize,
)
    requires
        message_valid(layouts, m, s, budget),
        kind_of(layouts[m], tag) == Some(FieldKind::Message(c)),
        joined_message(message_fields(layouts[m], s, budget)->0, tag) is Some,
    ensures
        budget > 0,
        message_valid(
            layouts,
            c as int,
            joined_message(message_fields(layouts[m], s, budget)->0, tag)->0,
            (budget - 1) as nat,
        ),
{
    let fs = message_fields(layouts[m], s, budget)->0;
    lemma_field_kinds(layouts[m], s, budget);
    lemma_joined_has_source(fs, tag);
    lemma_joined_prefix(layouts, c, fs, tag, (budget - 1) as nat);
}

proof fn lemma_joined_has_source(fs: Seq<FieldView>, tag: u32)
    requires
        joined_message(fs, tag) is Some,
    ensures
        exists|i: int| 0 <= i < fs.len() && (#[trigger] fs[i]).value is Message,
    decreases fs.len(),
{
    if fs.last().value is Message {
        assert(fs[fs.len() - 1].value is Message);
    } else {
        lemma_joined_has_source(fs.drop_last(), tag);
        let i = choose|i: int|
            0 <= i < fs.drop_last().len() && (#[trigger] fs.drop_last()[i]).value is Message;
        assert(fs[i].value is Message);
    }
}

/// Of several values under one tag the last one counts, of messages under one tag all
/// do, one behind the other, and what is missing is zero or no message. Values under
/// other tags do not matter.
pub proof fn the_last_value_counts(fs: Seq<FieldView>, f: FieldView, tag: u32)
    ensures
        last_varint(Seq::empty(), tag) == 0,
        last_fixed32(Seq::empty(), tag) == 0,
        joined_message(Seq::empty(), tag) is None,
        last_varint(fs.push(f), tag) == match f.value {
            FieldValue::Varint(v) => if f.tag == tag {
                v
            } else {
                last_varint(fs, tag)
            },
            _ => last_varint(fs, tag),
        },
        last_fixed32(fs.push(f), tag) == match f.value {
            FieldValue::Fixed32(bits) => if f.tag == tag {
                bits
            } else {
                last_fixed32(fs, tag)
            },
            _ => last_fixed32(fs, tag),
        },
        joined_message(fs.push(f), tag) == match f.value {
            FieldValue::Message(_, payload) => if f.tag == tag {
                match joined_message(fs, tag) {
                    Some(before) => Some(before + payload),
                    None => Some(payload),
                }
            } else {
                joined_message(fs, tag)
            },
            _ => joined_message(fs, tag),
        },
{
    assert(fs.push(f).drop_last() =~= fs);
}

/// Messages and groups may nest a hundred deep.
pub proof fn messages_nest_a_hundred_deep()
    ensures
        NESTING_LIMIT == 100,
{
}

} // verus!
