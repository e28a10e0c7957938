//! The link to the driver of the arm, over packets of the sensor API: a
//! subscription to its data, and a stream of commands.
use vstd::prelude::*;

use crate::control_interface::config::KinovaCfg;
use crate::control_interface::state::ArmSnapshot;
use crate::frame::{
    following_seq, frame, parse, MSG_CMD_ACK, MSG_COMMAND, MSG_DATA, MSG_ERROR, MSG_SUBSCRIBE,
    MSG_SUB_ACK,
};
use crate::json::{parse_json, write_single_field, Json, JsonScalar, JsonTree, NotJson};
use crate::text::endpoint;

verus! {

/// How often the subscription is renewed, in milliseconds: the API drops
/// subscribers that it cannot reach for too long.
pub const RESUBSCRIBE_MS: u64 = 5_000;

/// How long to wait after data could not be received, in milliseconds.
pub const RECEIVE_BACKOFF_MS: u64 = 200;

/// How long to wait after an acknowledgement could not be received, in
/// milliseconds.
pub const DRAIN_BACKOFF_MS: u64 = 100;

/// What came in on the data port.
#[derive(Debug)]
pub enum PacketOutcome {
    /// No packet of this protocol.
    NotAPacket,
    /// A report of the arm, to be published.
    Snapshot(ArmSnapshot),
    /// Data without any joint position.
    NoJoints,
    /// Data that is no JSON document.
    BadJson,
    /// The subscription is acknowledged.
    SubAck,
    /// The API reports an error, in its own words.
    ApiError(Vec<u8>),
    /// A message of another type.
    Unexpected(u8),
}

/// Whether `outcome` is what a data document comes to.
pub open spec fn is_data_outcome(outcome: PacketOutcome, document: Option<JsonTree>) -> bool {
    match document {
        Some(data) => match crate::control_interface::state::arm_in(data) {
            Some(arm) => outcome matches PacketOutcome::Snapshot(snap) && snap@ == arm,
            None => outcome is NoJoints,
        },
        None => outcome is BadJson,
    }
}

/// Whether `outcome` is what a packet comes to, where `document` is the JSON
/// document in its payload.
pub open spec fn is_packet_outcome(
    outcome: PacketOutcome,
    packet: Option<(u8, u16, Seq<u8>)>,
    document: Option<JsonTree>,
) -> bool {
    match packet {
        None => outcome is NotAPacket,
        Some((msg_type, _, payload)) => if msg_type == MSG_DATA {
            is_data_outcome(outcome, document)
        } else if msg_type == MSG_SUB_ACK {
            outcome is SubAck
        } else if msg_type == MSG_ERROR {
            outcome matches PacketOutcome::ApiError(words) && words@ == payload
        } else {
            outcome == PacketOutcome::Unexpected(msg_type)
        },
    }
}

/// The document in the payload of a packet.
pub open spec fn packet_document(packet: Option<(u8, u16, Seq<u8>)>) -> Option<JsonTree> {
    match packet {
        Some((_, _, payload)) => crate::json::json_document(payload),
        None => None,
    }
}

/// Handles the document of a data packet.
pub fn handle_data(document: &Result<Json, NotJson>) -> (r: PacketOutcome)
    ensures
        is_data_outcome(
            r,
            match document {
                Ok(j) => Some(j@),
                Err(_) => None,
            },
        ),
{
    match document {
        Ok(j) => match ArmSnapshot::from_kinova_json(j) {
            Some(snap) => PacketOutcome::Snapshot(snap),
            None => PacketOutcome::NoJoints,
        },
        Err(_) => PacketOutcome::BadJson,
    }
}

/// Handles what came in on the data port.
pub fn handle_packet(buf: &[u8]) -> (r: PacketOutcome)
    ensures
        is_packet_outcome(
            r,
            crate::frame::frame_parts(buf@),
            packet_document(crate::frame::frame_parts(buf@)),
        ),
{
    let (msg_type, _seq, payload) = match parse(buf) {
        Some(parts) => parts,
        None => return PacketOutcome::NotAPacket,
    };
    if msg_type == MSG_DATA {
        let document = parse_json(payload);
        handle_data(&document)
    } else if msg_type == MSG_SUB_ACK {
        PacketOutcome::SubAck
    } else if msg_type == MSG_ERROR {
        let mut words: Vec<u8> = Vec::new();
        words.extend_from_slice(payload);
        assert(words@ =~= payload@);
        PacketOutcome::ApiError(words)
    } else {
        PacketOutcome::Unexpected(msg_type)
    }
}

/// What happens to the subscription.
pub enum SubscriberEvent<'a> {
    /// The subscription is to be renewed: at the start and then periodically.
    Renew,
    /// Something came in.
    Received(&'a [u8]),
    /// Receiving failed.
    ReceiveFailed,
}

/// What the program is to do about the subscription.
#[derive(Debug)]
pub enum SubscriberAction {
    /// Send these bytes.
    Send(Vec<u8>),
    /// Publish or report what came in.
    Handle(PacketOutcome),
    /// Wait so many milliseconds.
    Wait(u64),
}

/// The subscription to the data of the arm.
pub struct DataSubscriber {
    seq: u16,
    payload: Vec<u8>,
}

/// The mathematical content of a [`DataSubscriber`].
pub struct SubscriberView {
    /// The sequence number of the next packet.
    pub seq: u16,
    /// The request that every packet carries.
    pub payload: Seq<u8>,
}

impl View for DataSubscriber {
    type V = SubscriberView;

    closed spec fn view(&self) -> SubscriberView {
        SubscriberView { seq: self.seq, payload: self.payload@ }
    }
}

impl SubscriberView {
    /// The packet that subscribes next.
    pub open spec fn packet(self) -> Seq<u8> {
        crate::frame::frame_bytes(MSG_SUBSCRIBE, self.seq, self.payload)
    }

    /// The subscription once that packet is sent.
    pub open spec fn renewed(self) -> SubscriberView {
        SubscriberView { seq: crate::frame::seq_after(self.seq), ..self }
    }

    /// The subscription after `n` packets.
    pub open spec fn renewed_times(self, n: nat) -> SubscriberView
        decreases n,
    {
        if n == 0 {
            self
        } else {
            self.renewed_times((n - 1) as nat).renewed()
        }
    }

    /// Whether the request asks for data every `interval_ms` milliseconds.
    pub open spec fn asks_for(self, interval_ms: u32) -> bool {
        let document = crate::json::json_document(self.payload);
        document is Some && crate::json::is_single_field(
            document->0,
            "interval_ms"@,
            JsonScalar::Unsigned(interval_ms),
        )
    }
}

impl DataSubscriber {
    /// A subscription that is not yet sent.
    pub fn new(cfg: &KinovaCfg) -> (r: DataSubscriber)
        ensures
            r@ == (SubscriberView {
                seq: 1,
                payload: crate::json::single_field_text(
                    "interval_ms"@,
                    JsonScalar::Unsigned(cfg.subscribe_interval_ms),
                ),
            }),
            r@.asks_for(cfg.subscribe_interval_ms),
    {
        proof {
            reveal_strlit("interval_ms");
        }
        DataSubscriber {
            seq: 1,
            payload: write_single_field(
                "interval_ms",
                JsonScalar::Unsigned(cfg.subscribe_interval_ms),
            ),
        }
    }

    /// The packet that subscribes.
    pub fn subscribe(&mut self) -> (r: Vec<u8>)
        ensures
            r@ == old(self)@.packet(),
            final(self)@ == old(self)@.renewed(),
    {
        let s = self.seq;
        self.seq = following_seq(s);
        frame(MSG_SUBSCRIBE, s, self.payload.as_slice())
    }

    /// Takes an event and says what to do.
    pub fn step(&mut self, event: SubscriberEvent) -> (r: SubscriberAction)
        ensures
            match event {
                SubscriberEvent::Renew => {
                    &&& r matches SubscriberAction::Send(bytes)
                    &&& bytes@ == old(self)@.packet()
                    &&& final(self)@ == old(self)@.renewed()
                },
                SubscriberEvent::Received(buf) => {
                    &&& r matches SubscriberAction::Handle(outcome)
                    &&& is_packet_outcome(
                        outcome,
                        crate::frame::frame_parts(buf@),
                        packet_document(crate::frame::frame_parts(buf@)),
                    )
                    &&& final(self)@ == old(self)@
                },
                SubscriberEvent::ReceiveFailed => {
                    &&& r == SubscriberAction::Wait(RECEIVE_BACKOFF_MS)
                    &&& final(self)@ == old(self)@
                },
            },
    {
        match event {
            SubscriberEvent::Renew => SubscriberAction::Send(self.subscribe()),
            SubscriberEvent::Received(buf) => SubscriberAction::Handle(handle_packet(buf)),
            SubscriberEvent::ReceiveFailed => SubscriberAction::Wait(RECEIVE_BACKOFF_MS),
        }
    }
}

/// Sends commands to the arm: where to, and under which number.
pub struct CommandSender {
    address: String,
    seq: u16,
}

/// What came in on the command port.
#[derive(Debug)]
pub enum AckOutcome {
    /// No packet of this protocol.
    NotAPacket,
    /// A command is acknowledged.
    Ack,
    /// The API reports an error, in its own words.
    ApiError(Vec<u8>),
    /// A message of another type.
    Unexpected(u8),
}

impl CommandSender {
    /// The sequence number of the next command.
    pub closed spec fn next_seq(&self) -> u16 {
        self.seq
    }

    /// The command port, in the notation `host:port`.
    pub closed spec fn target(&self) -> Seq<char> {
        self.address@
    }

    /// The sender for the arm of a configuration, which has sent nothing yet.
    pub fn connect(cfg: &KinovaCfg) -> (r: CommandSender)
        ensures
            r.target() == crate::text::endpoint_text(cfg.api_host@, cfg.command_port),
            r.next_seq() == 1,
    {
        CommandSender { address: endpoint(cfg.api_host.as_str(), cfg.command_port), seq: 1 }
    }

    /// The command port, in the notation `host:port`.
    pub fn address(&self) -> (r: &str)
        ensures
            r@ == self.target(),
    {
        self.address.as_str()
    }

    /// The packet that carries a command, written as JSON.
    pub fn send_json(&mut self, payload: &[u8]) -> (r: Vec<u8>)
        ensures
            r@ == crate::frame::frame_bytes(MSG_COMMAND, old(self).next_seq(), payload@),
            final(self).next_seq() == crate::frame::seq_after(old(self).next_seq()),
            final(self).target() == old(self).target(),
    {
        let s = self.seq;
        self.seq = following_seq(s);
        frame(MSG_COMMAND, s, payload)
    }
}

/// Whether `outcome` is what a packet on the command port comes to.
pub open spec fn is_ack_outcome(outcome: AckOutcome, packet: Option<(u8, u16, Seq<u8>)>) -> bool {
    match packet {
        None => outcome is NotAPacket,
        Some((msg_type, _, payload)) => if msg_type == MSG_ERROR {
            outcome matches AckOutcome::ApiError(words) && words@ == payload
        } else if msg_type == MSG_CMD_ACK {
            outcome is Ack
        } else {
            outcome == AckOutcome::Unexpected(msg_type)
        },
    }
}

/// Reads what came in on the command port.
pub fn read_ack(buf: &[u8]) -> (r: AckOutcome)
    ensures
        is_ack_outcome(r, crate::frame::frame_parts(buf@)),
{
    let (msg_type, _seq, payload) = match parse(buf) {
        Some(parts) => parts,
        None => return AckOutcome::NotAPacket,
    };
    if msg_type == MSG_ERROR {
        let mut words: Vec<u8> = Vec::new();
        words.extend_from_slice(payload);
        assert(words@ =~= payload@);
        AckOutcome::ApiError(words)
    } else if msg_type == MSG_CMD_ACK {
        AckOutcome::Ack
    } else {
        AckOutcome::Unexpected(msg_type)
    }
}

/// Every subscription packet carries the same request, whatever was sent
/// before, under a number that counts up from that of the first one.
pub proof fn subscriptions_repeat_the_request(s: SubscriberView, n: nat)
    ensures
        s.renewed_times(n).payload == s.payload,
        s.renewed_times(n).seq == (s.seq + n) % 0x1_0000,
        crate::frame::frame_parts(s.renewed_times(n).packet()) == Some(
            (MSG_SUBSCRIBE, s.renewed_times(n).seq, s.payload),
        ),
    decreases n,
{
    if n > 0 {
        subscriptions_repeat_the_request(s, (n - 1) as nat);
    }
    crate::frame::parse_inverts_frame(
        MSG_SUBSCRIBE,
        s.renewed_times(n).seq,
        s.renewed_times(n).payload,
    );
}

/// What comes in on the data port is told apart by its type: data (3) is a report
/// if it is a document with the position of a joint, an acknowledgement is 4, and an
/// error is 255, with the words of the API. What is no packet comes to nothing.
pub proof fn data_packets_are_told_apart(
    outcome: PacketOutcome,
    buf: Seq<u8>,
    document: Option<JsonTree>,
)
    requires
        is_packet_outcome(outcome, crate::frame::frame_parts(buf), document),
    ensures
        buf.len() < 4 || buf[0] != 1 ==> outcome is NotAPacket,
        buf.len() >= 4 && buf[0] == 1 ==> {
            &&& buf[1] == 3 && document is None ==> outcome is BadJson
            &&& buf[1] == 3 && document is Some ==> match crate::control_interface::state::arm_in(
                document->0,
            ) {
                Some(arm) => outcome matches PacketOutcome::Snapshot(snap) && snap@ == arm,
                None => outcome is NoJoints,
            }
            &&& buf[1] == 4 ==> outcome is SubAck
            &&& buf[1] == 255 ==> (outcome matches PacketOutcome::ApiError(words) && words@
                == buf.skip(4))
            &&& buf[1] != 3 && buf[1] != 4 && buf[1] != 255 ==> outcome
                == PacketOutcome::Unexpected(buf[1])
        },
{
}

/// What comes in on the command port is told apart by its type: an acknowledgement is
/// 17, and an error is 255, with the words of the API.
pub proof fn acknowledgements_are_told_apart(outcome: AckOutcome, buf: Seq<u8>)
    requires
        is_ack_outcome(outcome, crate::frame::frame_parts(buf)),
    ensures
        buf.len() < 4 || buf[0] != 1 ==> outcome is NotAPacket,
        buf.len() >= 4 && buf[0] == 1 ==> {
            &&& buf[1] == 17 ==> outcome is Ack
            &&& buf[1] == 255 ==> (outcome matches AckOutcome::ApiError(words) && words@
                == buf.skip(4))
            &&& buf[1] != 17 && buf[1] != 255 ==> outcome == AckOutcome::Unexpected(buf[1])
        },
{
}

/// The packet that subscribes has the version, the type 1 and the number that is due,
/// and carries the request, in which `interval_ms` is a number and stands alone. The
/// number counts up with it, and the request stays.
pub proof fn subscriptions_ask_for_data(s: SubscriberView, interval_ms: u32)
    ensures
        s.packet().len() == s.payload.len() + 4,
        s.packet()[0] == 1,
        s.packet()[1] == 1,
        s.packet()[2] + 0x100 * s.packet()[3] == s.seq,
        s.packet().skip(4) == s.payload,
        s.renewed().seq == (s.seq + 1) % 0x1_0000,
        s.renewed().payload == s.payload,
        s.asks_for(interval_ms) ==> {
            let document = crate::json::json_document(s.payload);
            &&& document is Some
            &&& document->0.u64_at("interval_ms"@) == Some(interval_ms as u64)
        },
{
    assert(s.packet().skip(4) =~= s.payload);
    if s.asks_for(interval_ms) {
        let document = crate::json::json_document(s.payload)->0;
        let keys = document->Object_0;
        assert(keys[0] == "interval_ms"@);
        keys.index_of_first_ensures("interval_ms"@);
    }
}

/// The subscription is renewed every five seconds. Failing to receive is answered by
/// waiting 200 milliseconds for data, and 100 for acknowledgements.
pub proof fn waits_are_short()
    ensures
        RESUBSCRIBE_MS == 5_000,
        RECEIVE_BACKOFF_MS == 200,
        DRAIN_BACKOFF_MS == 100,
{
}

} // verus!
