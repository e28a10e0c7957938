//! Packets of the sensor API: a header of four bytes (version, message type,
//! sequence number with its low byte first) and a payload.
use vstd::prelude::*;

verus! {

pub const PROTO_VERSION: u8 = 1;

pub const MSG_SUBSCRIBE: u8 = 0x01;

pub const MSG_DATA: u8 = 0x03;

pub const MSG_SUB_ACK: u8 = 0x04;

pub const MSG_COMMAND: u8 = 0x10;

pub const MSG_CMD_ACK: u8 = 0x11;

pub const MSG_ERROR: u8 = 0xFF;

/// The bytes of a packet.
pub open spec fn frame_bytes(msg_type: u8, seq: u16, payload: Seq<u8>) -> Seq<u8> {
    seq![PROTO_VERSION, msg_type, (seq % 256) as u8, (seq / 256) as u8] + payload
}

/// What a packet holds: message type, sequence number and payload. `None` for
/// bytes that are no packet of this version.
pub open spec fn frame_parts(buf: Seq<u8>) -> Option<(u8, u16, Seq<u8>)> {
    if buf.len() < 4 || buf[0] != PROTO_VERSION {
        None
    } else {
        Some((buf[1], (buf[2] + 256 * buf[3]) as u16, buf.skip(4)))
    }
}

/// The sequence number behind `seq`, around the end of its range.
pub open spec fn seq_after(seq: u16) -> u16 {
    if seq == u16::MAX {
        0
    } else {
        (seq + 1) as u16
    }
}

/// The sequence number behind `seq`.
pub fn following_seq(seq: u16) -> (r: u16)
    ensures
        r == seq_after(seq),
{
    if seq == u16::MAX {
        0
    } else {
        seq + 1
    }
}

/// Builds a packet.
pub fn frame(msg_type: u8, seq: u16, payload: &[u8]) -> (r: Vec<u8>)
    ensures
        r@ == frame_bytes(msg_type, seq, payload@),
{
    let mut buf: Vec<u8> = Vec::new();
    buf.push(PROTO_VERSION);
    buf.push(msg_type);
    buf.push((seq % 256) as u8);
    buf.push((seq / 256) as u8);
    buf.extend_from_slice(payload);
    assert(buf@ =~= frame_bytes(msg_type, seq, payload@));
    buf
}

/// Takes a packet apart.
pub fn parse(buf: &[u8]) -> (r: Option<(u8, u16, &[u8])>)
    ensures
        match r {
            Some((msg_type, seq, payload)) => frame_parts(buf@) == Some((msg_type, seq, payload@)),
            None => frame_parts(buf@) is None,
        },
{
    if buf.len() < 4 || buf[0] != PROTO_VERSION {
        return None;
    }
    let seq = buf[2] as u16 + 256 * (buf[3] as u16);
    Some((buf[1], seq, vstd::slice::slice_subrange(buf, 4, buf.len())))
}

/// Taking apart what was built gives back what went in.
pub proof fn parse_inverts_frame(msg_type: u8, seq: u16, payload: Seq<u8>)
    ensures
        frame_parts(frame_bytes(msg_type, seq, payload)) == Some((msg_type, seq, payload)),
{
    let buf = frame_bytes(msg_type, seq, payload);
    assert(buf.skip(4) =~= payload);
}

/// Building what was taken apart gives back the packet.
pub proof fn frame_inverts_parse(buf: Seq<u8>)
    requires
        frame_parts(buf) is Some,
    ensures
        ({
            let (msg_type, seq, payload) = frame_parts(buf)->0;
            frame_bytes(msg_type, seq, payload) == buf
        }),
{
    let (msg_type, seq, payload) = frame_parts(buf)->0;
    assert(frame_bytes(msg_type, seq, payload) =~= buf);
}

/// A packet starts with the version (1), its type, and its sequence number with the
/// low byte first; behind that stands the payload, unchanged.
pub proof fn packets_start_with_their_header(msg_type: u8, seq: u16, payload: Seq<u8>)
    ensures
        frame_bytes(msg_type, seq, payload).len() == 4 + payload.len(),
        frame_bytes(msg_type, seq, payload)[0] == 1,
        frame_bytes(msg_type, seq, payload)[1] == msg_type,
        frame_bytes(msg_type, seq, payload)[2] + 0x100 * frame_bytes(msg_type, seq, payload)[3]
            == seq,
        forall|i: int|
            0 <= i < payload.len() ==> #[trigger] frame_bytes(msg_type, seq, payload)[i + 4]
                == payload[i],
{
}

/// Exactly what holds a header of version 1 is a packet.
pub proof fn packets_need_a_header(buf: Seq<u8>)
    ensures
        frame_parts(buf) is Some <==> buf.len() >= 4 && buf[0] == 1,
        frame_parts(buf) matches Some((msg_type, seq, payload)) ==> {
            &&& msg_type == buf[1]
            &&& seq == buf[2] + 0x100 * buf[3]
            &&& payload.len() == buf.len() - 4
            &&& forall|i: int| 0 <= i < payload.len() ==> #[trigger] payload[i] == buf[i + 4]
        },
{
}

/// Sequence numbers count up by one, and from 65535 on to zero.
pub proof fn sequence_numbers_count_up(seq: u16)
    ensures
        seq_after(seq) == (seq + 1) % 0x1_0000,
{
}

} // verus!
