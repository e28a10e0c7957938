//! The link to the operator: control packets come in, telemetry goes out.
//!
//! Telemetry goes to a configured address, or else to whichever peer last sent
//! a control packet.
use vstd::prelude::*;

use crate::control_interface::config::TeleopCfg;
use crate::control_interface::ik_link::{OvisTwist, Twist, TwistSender};
use crate::control_interface::report::{due, raise_peak, SUMMARY_INTERVAL_NS};
use crate::control_interface::state::{ArmSnapshot, ArmView};
use crate::text::{endpoint, is_blank};

verus! {

/// An IP address as a number.
#[derive(Clone, Copy, Debug, PartialEq, Eq, Structural)]
pub enum IpAddress {
    V4(u32),
    V6(u128),
}

/// The address of a peer.
#[derive(Clone, Copy, Debug, PartialEq, Eq, Structural)]
pub enum PeerAddress {
    V4 { ip: u32, port: u16 },
    V6 { ip: u128, port: u16, flowinfo: u32, scope_id: u32 },
}

/// The IP address of a peer.
pub open spec fn ip_of(peer: PeerAddress) -> IpAddress {
    match peer {
        PeerAddress::V4 { ip, .. } => IpAddress::V4(ip),
        PeerAddress::V6 { ip, .. } => IpAddress::V6(ip),
    }
}

/// The address of a port at an IP address, without flow label and scope.
pub open spec fn port_at(ip: IpAddress, port: u16) -> PeerAddress {
    match ip {
        IpAddress::V4(ip) => PeerAddress::V4 { ip, port },
        IpAddress::V6(ip) => PeerAddress::V6 { ip, port, flowinfo: 0, scope_id: 0 },
    }
}

impl PeerAddress {
    /// The IP address.
    pub fn ip(&self) -> (r: IpAddress)
        ensures
            r == ip_of(*self),
    {
        match self {
            PeerAddress::V4 { ip, .. } => IpAddress::V4(*ip),
            PeerAddress::V6 { ip, .. } => IpAddress::V6(*ip),
        }
    }

    /// The address of a port at an IP address.
    pub fn new(ip: IpAddress, port: u16) -> (r: PeerAddress)
        ensures
            r == port_at(ip, port),
    {
        match ip {
            IpAddress::V4(ip) => PeerAddress::V4 { ip, port },
            IpAddress::V6(ip) => PeerAddress::V6 { ip, port, flowinfo: 0, scope_id: 0 },
        }
    }
}

/// Remembers the peer that last sent a control packet.
pub struct PeerTracker {
    pub last: Option<PeerAddress>,
}

impl Default for PeerTracker {
    fn default() -> (r: PeerTracker)
        ensures
            r.last is None,
    {
        PeerTracker { last: None }
    }
}

impl PeerTracker {
    pub fn update(&mut self, addr: PeerAddress)
        ensures
            final(self).last == Some(addr),
    {
        self.last = Some(addr);
    }

    pub fn get(&self) -> (r: Option<PeerAddress>)
        ensures
            r == self.last,
    {
        self.last
    }
}

/// The address of telemetry that the configuration fixes, in the notation
/// `host:port`; none for a blank host.
pub fn static_destination(cfg: &TeleopCfg) -> (r: Option<String>)
    ensures
        match r {
            Some(text) => !crate::text::is_blank_text(cfg.telemetry_host@) && text@
                == crate::text::endpoint_text(cfg.telemetry_host@, cfg.telemetry_port),
            None => crate::text::is_blank_text(cfg.telemetry_host@),
        },
{
    if is_blank(cfg.telemetry_host.as_str()) {
        None
    } else {
        Some(endpoint(cfg.telemetry_host.as_str(), cfg.telemetry_port))
    }
}

/// Where telemetry goes: to the fixed address if there is one, else to the
/// telemetry port of the last peer, else nowhere.
pub open spec fn destination(
    fixed: Option<PeerAddress>,
    last: Option<PeerAddress>,
    telemetry_port: u16,
) -> Option<PeerAddress> {
    match fixed {
        Some(address) => Some(address),
        None => match last {
            Some(peer) => Some(port_at(ip_of(peer), telemetry_port)),
            None => None,
        },
    }
}

/// Where telemetry goes.
pub fn telemetry_destination(
    fixed: Option<PeerAddress>,
    peer: &PeerTracker,
    telemetry_port: u16,
) -> (r: Option<PeerAddress>)
    ensures
        r == destination(fixed, peer.last, telemetry_port),
{
    match fixed {
        Some(address) => Some(address),
        None => match peer.get() {
            Some(p) => Some(PeerAddress::new(p.ip(), telemetry_port)),
            None => None,
        },
    }
}

/// The state of a drive in telemetry. Temperatures, current and position are
/// the bits of doubles.
#[derive(Clone, Copy, Debug, PartialEq, Eq, Structural)]
pub struct DriveNodeState {
    pub node_id: u32,
    pub node_state: u32,
    pub node_temp_c: u64,
    pub motor_temp_c: u64,
    pub motor_amp: u64,
    pub motor_pos: u64,
    pub active_errors: u32,
    pub latched_errors: u32,
}

/// The state of the arm in telemetry.
#[derive(Clone, Copy, Debug, PartialEq, Eq, Structural)]
pub struct OvisTelemetry {
    pub act_1: DriveNodeState,
    pub act_2: DriveNodeState,
    pub act_3: DriveNodeState,
    pub act_4: DriveNodeState,
    pub act_5: DriveNodeState,
    pub act_6: DriveNodeState,
}

/// What the operator is told.
#[derive(Clone, Copy, Debug, PartialEq, Eq, Structural)]
pub struct RoveTelemetry {
    pub ovis: OvisTelemetry,
    pub timestamp_us: u64,
    pub machine_state: u32,
}

/// The state of a drive that works.
pub const OPERATIONAL: u32 = 1;

/// The state of the joint in slot `i`. The arm reports neither a richer state
/// nor errors, and one temperature for both.
pub open spec fn actuator(arm: ArmView, i: int) -> DriveNodeState {
    DriveNodeState {
        node_id: (i + 1) as u32,
        node_state: OPERATIONAL,
        node_temp_c: arm.joint_temp_c[i],
        motor_temp_c: arm.joint_temp_c[i],
        motor_amp: arm.joint_current_a[i],
        motor_pos: arm.joint_pos_deg[i],
        active_errors: 0,
        latched_errors: 0,
    }
}

/// What the operator is told of the arm at a time.
pub open spec fn telemetry_of(arm: ArmView, timestamp_us: u64) -> RoveTelemetry {
    RoveTelemetry {
        ovis: OvisTelemetry {
            act_1: actuator(arm, 0),
            act_2: actuator(arm, 1),
            act_3: actuator(arm, 2),
            act_4: actuator(arm, 3),
            act_5: actuator(arm, 4),
            act_6: actuator(arm, 5),
        },
        timestamp_us,
        machine_state: 0,
    }
}

fn act(snap: &ArmSnapshot, idx: usize) -> (r: DriveNodeState)
    requires
        idx < 6,
    ensures
        r == actuator(snap@, idx as int),
{
    DriveNodeState {
        node_id: idx as u32 + 1,
        node_state: OPERATIONAL,
        node_temp_c: snap.joint_temp_c[idx],
        motor_temp_c: snap.joint_temp_c[idx],
        motor_amp: snap.joint_current_a[idx],
        motor_pos: snap.joint_pos_deg[idx],
        active_errors: 0,
        latched_errors: 0,
    }
}

/// The telemetry for a report of the arm.
pub fn build_telemetry(snap: &ArmSnapshot, timestamp_us: u64) -> (r: RoveTelemetry)
    ensures
        r == telemetry_of(snap@, timestamp_us),
{
    RoveTelemetry {
        ovis: OvisTelemetry {
            act_1: act(snap, 0),
            act_2: act(snap, 1),
            act_3: act(snap, 2),
            act_4: act(snap, 3),
            act_5: act(snap, 4),
            act_6: act(snap, 5),
        },
        timestamp_us,
        machine_state: 0,
    }
}

/// A time stamp out of the microseconds since the epoch: their low 64 bits, or
/// zero for a clock before it.
pub open spec fn timestamp(micros_since_epoch: Option<u128>) -> u64 {
    match micros_since_epoch {
        Some(micros) => (micros % 0x1_0000_0000_0000_0000) as u64,
        None => 0,
    }
}

/// A time stamp out of the microseconds since the epoch.
pub fn now_us(micros_since_epoch: Option<u128>) -> (r: u64)
    ensures
        r == timestamp(micros_since_epoch),
{
    match micros_since_epoch {
        Some(micros) => (micros % 0x1_0000_0000_0000_0000) as u64,
        None => 0,
    }
}

/// The longest time without a line about a control packet, in nanoseconds.
pub const TWIST_LOG_MAX_GAP_NS: u64 = 2_000_000_000;

/// What a control packet commands. All but the flippers and the gripper are the
/// bits of singles.
#[derive(Clone, Copy, Debug, PartialEq, Eq, Structural)]
pub struct TwistSnapshot {
    pub px: u32,
    pub py: u32,
    pub pz: u32,
    pub oy: u32,
    pub op: u32,
    pub or: u32,
    pub tl: u32,
    pub tr: u32,
    pub fl: i32,
    pub fr: i32,
    pub rl: i32,
    pub rr: i32,
    pub grip: bool,
}

/// A control packet: what it commands, and how its floating point numbers
/// compare.
#[derive(Clone, Copy, Debug, PartialEq, Eq, Structural)]
pub struct ControlPacket {
    pub ovis: OvisTwist,
    pub snap: TwistSnapshot,
    /// The magnitude of the linear part of the twist, as the bits of a single.
    pub linear: u32,
    /// The magnitude of the angular part of the twist, as the bits of a single.
    pub angular: u32,
    /// Whether a twist or a track velocity is noticeably away from zero.
    pub moving: bool,
    /// Whether a twist or a track velocity is noticeably away from what it was
    /// when a packet was last worth a line.
    pub drifted: bool,
}

impl TwistSnapshot {
    /// Whether flippers or gripper differ.
    pub open spec fn switched(self, other: TwistSnapshot) -> bool {
        self.fl != other.fl || self.fr != other.fr || self.rl != other.rl || self.rr != other.rr
            || self.grip != other.grip
    }

    /// Whether a flipper moves or the gripper is open.
    pub open spec fn engaged(self) -> bool {
        self.fl != 0 || self.fr != 0 || self.rl != 0 || self.rr != 0 || self.grip
    }
}

/// What is known of the control link.
pub struct ControlLink {
    received: u64,
    since_summary: u64,
    last_summary_ns: Option<u64>,
    peak_linear: u32,
    peak_angular: u32,
    last_peer: Option<PeerAddress>,
    last_logged: Option<TwistSnapshot>,
    last_logged_ns: Option<u64>,
}

/// The mathematical content of a [`ControlLink`].
pub struct LinkView {
    /// The number of control packets.
    pub received: u64,
    /// The number of control packets since the link was last summed up.
    pub since_summary: u64,
    /// When the link was last summed up.
    pub last_summary_ns: Option<u64>,
    /// The greatest magnitudes of the parts of a twist since then.
    pub peak_linear: u32,
    pub peak_angular: u32,
    /// Who sent the last packet.
    pub last_peer: Option<PeerAddress>,
    /// The packet that was last worth a line, and when it came.
    pub last_logged: Option<TwistSnapshot>,
    pub last_logged_ns: Option<u64>,
}

impl View for ControlLink {
    type V = LinkView;

    closed spec fn view(&self) -> LinkView {
        LinkView {
            received: self.received,
            since_summary: self.since_summary,
            last_summary_ns: self.last_summary_ns,
            peak_linear: self.peak_linear,
            peak_angular: self.peak_angular,
            last_peer: self.last_peer,
            last_logged: self.last_logged,
            last_logged_ns: self.last_logged_ns,
        }
    }
}

/// The state of the control link, summed up.
#[derive(Clone, Copy, Debug, PartialEq, Eq, Structural)]
pub struct LinkSummary {
    pub packets: u64,
    pub peer: PeerAddress,
    pub total: u64,
    /// The bits of singles.
    pub peak_linear: u32,
    pub peak_angular: u32,
}

/// What the program is to do about a control packet.
#[derive(Clone, Copy, Debug, PartialEq, Eq, Structural)]
pub struct ControlReport {
    /// What to forward to the engine.
    pub twist: Twist,
    /// Whether the packet is worth a line.
    pub log: bool,
    /// The summary of the link, where it is due.
    pub summary: Option<LinkSummary>,
}

impl LinkView {
    /// The link before the first packet.
    pub open spec fn fresh() -> LinkView {
        LinkView {
            received: 0,
            since_summary: 0,
            last_summary_ns: None,
            peak_linear: 0,
            peak_angular: 0,
            last_peer: None,
            last_logged: None,
            last_logged_ns: None,
        }
    }

    /// Whether a packet is worth a line: it sets something in motion that is
    /// new, or there was no line for too long.
    pub open spec fn worth_a_line(self, packet: ControlPacket, now_ns: u64) -> bool {
        let motion = packet.moving || packet.snap.engaged();
        let changed = match self.last_logged {
            Some(prev) => packet.drifted || packet.snap.switched(prev),
            None => true,
        };
        (motion && changed) || crate::control_interface::report::is_due(self.last_logged_ns, now_ns, TWIST_LOG_MAX_GAP_NS)
    }

    /// The summary that is due with a packet.
    pub open spec fn summary(
        self,
        from: PeerAddress,
        packet: ControlPacket,
        now_ns: u64,
    ) -> Option<LinkSummary> {
        if crate::control_interface::report::is_due(
            self.last_summary_ns,
            now_ns,
            SUMMARY_INTERVAL_NS,
        ) {
            Some(
                LinkSummary {
                    packets: (self.since_summary + 1) as u64,
                    peer: match self.last_peer {
                        Some(peer) => peer,
                        None => from,
                    },
                    total: (self.received + 1) as u64,
                    peak_linear: crate::control_interface::report::peak_with(
                        self.peak_linear,
                        packet.linear,
                    ),
                    peak_angular: crate::control_interface::report::peak_with(
                        self.peak_angular,
                        packet.angular,
                    ),
                },
            )
        } else {
            None
        }
    }

    /// The link after a packet.
    pub open spec fn after(self, from: PeerAddress, packet: ControlPacket, now_ns: u64) -> LinkView {
        let log = self.worth_a_line(packet, now_ns);
        let summed_up = self.summary(from, packet, now_ns) is Some;
        LinkView {
            received: (self.received + 1) as u64,
            since_summary: if summed_up {
                0
            } else {
                (self.since_summary + 1) as u64
            },
            last_summary_ns: if summed_up {
                Some(now_ns)
            } else {
                self.last_summary_ns
            },
            peak_linear: if summed_up {
                0
            } else {
                crate::control_interface::report::peak_with(self.peak_linear, packet.linear)
            },
            peak_angular: if summed_up {
                0
            } else {
                crate::control_interface::report::peak_with(self.peak_angular, packet.angular)
            },
            last_peer: Some(from),
            last_logged: if log {
                Some(packet.snap)
            } else {
                self.last_logged
            },
            last_logged_ns: if log {
                Some(now_ns)
            } else {
                self.last_logged_ns
            },
        }
    }
}

/// The twist that is forwarded for a packet.
pub open spec fn twist_of(packet: ControlPacket, mode: u32, t_us: u64) -> Twist {
    Twist { orientation: packet.ovis.orientation, position: packet.ovis.position, mode, t_us }
}

/// What is done about a control packet.
pub open spec fn report_of(
    link: LinkView,
    from: PeerAddress,
    packet: ControlPacket,
    mode: u32,
    t_us: u64,
    now_ns: u64,
) -> ControlReport {
    ControlReport {
        twist: twist_of(packet, mode, t_us),
        log: link.worth_a_line(packet, now_ns),
        summary: link.summary(from, packet, now_ns),
    }
}

impl ControlLink {
    /// A link counts no more packets since the summary than in all.
    #[verifier::type_invariant]
    spec fn counts_agree(self) -> bool {
        self.since_summary <= self.received
    }

    /// A link before the first packet.
    pub fn new() -> (r: ControlLink)
        ensures
            r@ == LinkView::fresh(),
    {
        ControlLink {
            received: 0,
            since_summary: 0,
            last_summary_ns: None,
            peak_linear: 0,
            peak_angular: 0,
            last_peer: None,
            last_logged: None,
            last_logged_ns: None,
        }
    }

    /// The packet that was last worth a line.
    pub fn last_logged(&self) -> (r: Option<TwistSnapshot>)
        ensures
            r == self@.last_logged,
    {
        self.last_logged
    }

    /// The number of control packets.
    pub fn received(&self) -> (r: u64)
        ensures
            r == self@.received,
    {
        self.received
    }

    /// Takes a control packet. Its sender becomes the peer, and its twist is
    /// forwarded in any case.
    pub fn on_control(
        &mut self,
        peer: &mut PeerTracker,
        from: PeerAddress,
        packet: &ControlPacket,
        twist: &TwistSender,
        t_us: u64,
        now_ns: u64,
    ) -> (r: ControlReport)
        requires
            old(self)@.received < u64::MAX,
        ensures
            final(self)@ == old(self)@.after(from, *packet, now_ns),
            final(peer).last == Some(from),
            r == report_of(old(self)@, from, *packet, twist.mode, t_us, now_ns),
    {
        proof {
            use_type_invariant(&*self);
        }
        peer.update(from);
        self.received = self.received + 1;
        self.since_summary = self.since_summary + 1;
        self.peak_linear = raise_peak(self.peak_linear, packet.linear);
        self.peak_angular = raise_peak(self.peak_angular, packet.angular);
        let snap = packet.snap;
        let motion = packet.moving || snap.fl != 0 || snap.fr != 0 || snap.rl != 0 || snap.rr != 0
            || snap.grip;
        let changed = match self.last_logged {
            Some(prev) => packet.drifted || snap.fl != prev.fl || snap.fr != prev.fr || snap.rl
                != prev.rl || snap.rr != prev.rr || snap.grip != prev.grip,
            None => true,
        };
        let log = (motion && changed) || due(self.last_logged_ns, now_ns, TWIST_LOG_MAX_GAP_NS);
        if log {
            self.last_logged = Some(snap);
            self.last_logged_ns = Some(now_ns);
        }
        let mut summary: Option<LinkSummary> = None;
        if due(self.last_summary_ns, now_ns, SUMMARY_INTERVAL_NS) {
            summary =
            Some(
                LinkSummary {
                    packets: self.since_summary,
                    peer: match self.last_peer {
                        Some(p) => p,
                        None => from,
                    },
                    total: self.received,
                    peak_linear: self.peak_linear,
                    peak_angular: self.peak_angular,
                },
            );
            self.last_summary_ns = Some(now_ns);
            self.since_summary = 0;
            self.peak_linear = 0;
            self.peak_angular = 0;
        }
        self.last_peer = Some(from);
        ControlReport { twist: twist.send(&packet.ovis, t_us), log, summary }
    }

    /// Takes a datagram: the control packet that it decodes to, if it does. One
    /// that does not changes nothing.
    pub fn on_datagram(
        &mut self,
        peer: &mut PeerTracker,
        from: PeerAddress,
        packet: Option<ControlPacket>,
        twist: &TwistSender,
        t_us: u64,
        now_ns: u64,
    ) -> (r: Option<ControlReport>)
        requires
            packet is Some ==> old(self)@.received < u64::MAX,
        ensures
            (final(self)@, final(peer).last, r) == datagram_step(
                old(self)@,
                old(peer).last,
                twist.mode,
                ControlDatagram { from, packet, t_us, now_ns },
            ),
    {
        match packet {
            Some(p) => Some(self.on_control(peer, from, &p, twist, t_us, now_ns)),
            None => None,
        }
    }
}

/// A datagram on the control port: who sent it, the packet that it decodes to,
/// and when it came.
pub struct ControlDatagram {
    pub from: PeerAddress,
    pub packet: Option<ControlPacket>,
    pub t_us: u64,
    pub now_ns: u64,
}

/// What a datagram does to the link and to the last peer, and what is done about
/// it.
pub open spec fn datagram_step(
    link: LinkView,
    last: Option<PeerAddress>,
    mode: u32,
    d: ControlDatagram,
) -> (LinkView, Option<PeerAddress>, Option<ControlReport>) {
    match d.packet {
        Some(packet) => (
            link.after(d.from, packet, d.now_ns),
            Some(d.from),
            Some(report_of(link, d.from, packet, mode, d.t_us, d.now_ns)),
        ),
        None => (link, last, None),
    }
}

/// What datagrams do, one after the other: the link and the last peer behind
/// them, and all twists that are forwarded.
pub open spec fn datagrams_step(
    link: LinkView,
    last: Option<PeerAddress>,
    mode: u32,
    ds: Seq<ControlDatagram>,
) -> (LinkView, Option<PeerAddress>, Seq<Twist>)
    decreases ds.len(),
{
    if ds.len() == 0 {
        (link, last, Seq::empty())
    } else {
        let (link, last, twists) = datagrams_step(link, last, mode, ds.drop_last());
        let (link, last, report) = datagram_step(link, last, mode, ds.last());
        match report {
            Some(r) => (link, last, twists.push(r.twist)),
            None => (link, last, twists),
        }
    }
}

/// The datagrams that decode.
pub open spec fn decoded(ds: Seq<ControlDatagram>) -> Seq<ControlDatagram> {
    ds.filter(|d: ControlDatagram| d.packet is Some)
}

/// Over any datagrams, exactly one twist is forwarded for each that decodes, in
/// their order and with the command of that packet, also one of zero. The peer
/// is who sent the last of them. What does not decode causes neither.
pub proof fn every_packet_is_forwarded_once(
    link: LinkView,
    last: Option<PeerAddress>,
    mode: u32,
    ds: Seq<ControlDatagram>,
)
    ensures
        datagrams_step(link, last, mode, ds).2 == decoded(ds).map_values(
            |d: ControlDatagram| twist_of(d.packet->0, mode, d.t_us),
        ),
        datagrams_step(link, last, mode, ds).1 == if decoded(ds).len() > 0 {
            Some(decoded(ds).last().from)
        } else {
            last
        },
    decreases ds.len(),
{
    reveal(Seq::filter);
    let twist = |d: ControlDatagram| twist_of(d.packet->0, mode, d.t_us);
    if ds.len() > 0 {
        every_packet_is_forwarded_once(link, last, mode, ds.drop_last());
        let before = decoded(ds.drop_last());
        if ds.last().packet is Some {
            assert(decoded(ds) == before.push(ds.last()));
            assert(before.push(ds.last()).map_values(twist) =~= before.map_values(twist).push(
                twist(ds.last()),
            ));
        } else {
            assert(decoded(ds) == before);
        }
    } else {
        assert(decoded(ds).map_values(twist) =~= Seq::empty());
    }
}

/// Without a fixed address, telemetry follows whoever sent the last control
/// packet, on the telemetry port.
pub proof fn telemetry_follows_the_last_peer(last: PeerAddress, telemetry_port: u16)
    ensures
        destination(None, Some(last), telemetry_port) == Some(
            port_at(ip_of(last), telemetry_port),
        ),
        destination(None, None, telemetry_port) is None,
{
}

/// A packet that repeats the last one worth a line gets none itself before the
/// gap is over, and one as soon as it is.
pub proof fn repeated_packets_are_quiet_for_a_while(link: LinkView, packet: ControlPacket, now_ns: u64)
    requires
        link.last_logged == Some(packet.snap),
        link.last_logged_ns is Some,
        !packet.drifted,
    ensures
        link.worth_a_line(packet, now_ns) <==> link.last_logged_ns->0 + TWIST_LOG_MAX_GAP_NS
            <= now_ns,
{
}

/// Telemetry goes to the fixed address if there is one, as it is. Else it goes to
/// whoever sent the last control packet: to the same IP address, on the telemetry
/// port. Else it goes nowhere.
pub proof fn telemetry_goes_to_the_operator(
    fixed: PeerAddress,
    last: Option<PeerAddress>,
    telemetry_port: u16,
)
    ensures
        destination(Some(fixed), last, telemetry_port) == Some(fixed),
        destination(None, last, telemetry_port) == match last {
            Some(PeerAddress::V4 { ip, .. }) => Some(
                PeerAddress::V4 { ip, port: telemetry_port },
            ),
            Some(PeerAddress::V6 { ip, .. }) => Some(
                PeerAddress::V6 { ip, port: telemetry_port, flowinfo: 0, scope_id: 0 },
            ),
            None => None,
        },
{
}

/// Telemetry mirrors the arm: the joint in slot `i` is reported as the actuator that
/// counts one more, as operational (1) and without errors, with the position, the
/// current and, twice, the temperature of that joint.
pub proof fn telemetry_mirrors_the_joints(arm: ArmView, timestamp_us: u64, i: int)
    requires
        0 <= i < 6,
    ensures
        ({
            let t = telemetry_of(arm, timestamp_us);
            let acts = seq![
                t.ovis.act_1,
                t.ovis.act_2,
                t.ovis.act_3,
                t.ovis.act_4,
                t.ovis.act_5,
                t.ovis.act_6,
            ];
            &&& acts[i].node_id == i + 1
            &&& acts[i].node_state == 1
            &&& acts[i].node_temp_c == arm.joint_temp_c[i]
            &&& acts[i].motor_temp_c == arm.joint_temp_c[i]
            &&& acts[i].motor_amp == arm.joint_current_a[i]
            &&& acts[i].motor_pos == arm.joint_pos_deg[i]
            &&& acts[i].active_errors == 0
            &&& acts[i].latched_errors == 0
            &&& t.timestamp_us == timestamp_us
            &&& t.machine_state == 0
        }),
{
}

/// A time stamp is the number of microseconds, as far as it fits in 64 bits, and
/// zero for a clock before the epoch.
pub proof fn time_stamps_are_microseconds(micros: u128)
    ensures
        micros <= u64::MAX ==> timestamp(Some(micros)) == micros,
        timestamp(Some(micros)) == micros % 0x1_0000_0000_0000_0000,
        timestamp(None) == 0,
{
}

/// A datagram that decodes is forwarded at once, whatever its packet commands: with
/// the rotation and the velocity of that packet, bit for bit, in the configured mode
/// and with the time at which it came. Its sender is the peer from then on, and it is
/// counted. One that does not decode does none of it.
pub proof fn decoded_datagrams_are_forwarded(
    link: LinkView,
    last: Option<PeerAddress>,
    mode: u32,
    d: ControlDatagram,
)
    requires
        link.received < u64::MAX,
    ensures
        d.packet is None ==> datagram_step(link, last, mode, d) == (
            link,
            last,
            None::<ControlReport>,
        ),
        d.packet matches Some(packet) ==> {
            let (after, peer, report) = datagram_step(link, last, mode, d);
            &&& peer == Some(d.from)
            &&& after.last_peer == Some(d.from)
            &&& after.received == link.received + 1
            &&& report is Some
            &&& report->0.twist.orientation == packet.ovis.orientation
            &&& report->0.twist.position == packet.ovis.position
            &&& report->0.twist.mode == mode
            &&& report->0.twist.t_us == d.t_us
        },
{
}

/// The link is summed up with its first packet and then with the first one that is at
/// least a second later: the number of packets since the last time and in all, the
/// peer before this packet, and the greatest magnitudes. Behind that it starts again.
pub proof fn links_are_summed_up_every_second(
    link: LinkView,
    from: PeerAddress,
    packet: ControlPacket,
    now_ns: u64,
)
    requires
        link.since_summary <= link.received < u64::MAX,
    ensures
        ({
            let due = link.last_summary_ns is None || link.last_summary_ns->0 + 1_000_000_000
                <= now_ns;
            let after = link.after(from, packet, now_ns);
            let linear = crate::control_interface::report::peak_with(
                link.peak_linear,
                packet.linear,
            );
            let angular = crate::control_interface::report::peak_with(
                link.peak_angular,
                packet.angular,
            );
            &&& !due ==> {
                &&& link.summary(from, packet, now_ns) is None
                &&& after.since_summary == link.since_summary + 1
                &&& after.last_summary_ns == link.last_summary_ns
                &&& after.peak_linear == linear
                &&& after.peak_angular == angular
            }
            &&& due ==> {
                &&& link.summary(from, packet, now_ns) matches Some(s)
                &&& s.packets == link.since_summary + 1
                &&& s.total == link.received + 1
                &&& s.peer == if link.last_peer is Some {
                    link.last_peer->0
                } else {
                    from
                }
                &&& s.peak_linear == linear
                &&& s.peak_angular == angular
                &&& after.since_summary == 0
                &&& after.last_summary_ns == Some(now_ns)
                &&& after.peak_linear == 0
                &&& after.peak_angular == 0
            }
        }),
{
}

/// A packet is worth a line if there was none for two seconds, or ever; or if it sets
/// something in motion, by a twist, a track, a flipper or an open gripper, and is not
/// what the last line was about. What is worth a line is remembered.
pub proof fn new_motions_are_worth_a_line(
    link: LinkView,
    from: PeerAddress,
    packet: ControlPacket,
    now_ns: u64,
)
    ensures
        ({
            let s = packet.snap;
            let motion = packet.moving || s.fl != 0 || s.fr != 0 || s.rl != 0 || s.rr != 0
                || s.grip;
            let news = link.last_logged is None || packet.drifted || s.fl
                != link.last_logged->0.fl || s.fr != link.last_logged->0.fr || s.rl
                != link.last_logged->0.rl || s.rr != link.last_logged->0.rr || s.grip
                != link.last_logged->0.grip;
            let overdue = link.last_logged_ns is None || link.last_logged_ns->0 + 2_000_000_000
                <= now_ns;
            let after = link.after(from, packet, now_ns);
            &&& link.worth_a_line(packet, now_ns) <==> overdue || (motion && news)
            &&& overdue || (motion && news) ==> after.last_logged == Some(s)
                && after.last_logged_ns == Some(now_ns)
            &&& !overdue && !(motion && news) ==> after.last_logged == link.last_logged
                && after.last_logged_ns == link.last_logged_ns
        }),
{
}

} // verus!
