use rove::control_interface::config::{IkEngineCfg, JointMapEntry, KinovaCfg, TeleopCfg};
use rove::control_interface::ik_link::{
    ik_mode, joint_readings, map_command, ArmPusher, CommandQueue, IkMode, JointCommand, JointPusher,
    NamedFloat, Orientation, OvisTwist, TwistSender, VelocsCommand, VelocsListener, VelocsSummary,
    Vector3, QUEUE_LEN,
};
use rove::control_interface::kinova::{
    handle_packet, read_ack, AckOutcome, CommandSender, DataSubscriber, PacketOutcome,
    SubscriberAction, SubscriberEvent,
};
use rove::control_interface::state::ArmSnapshot;
use rove::control_interface::teleop::{
    build_telemetry, now_us, static_destination, telemetry_destination, ControlLink, ControlPacket,
    IpAddress, LinkSummary, PeerAddress, PeerTracker, TwistSnapshot,
};
use rove::frame::{frame, parse, MSG_CMD_ACK, MSG_DATA, MSG_ERROR, MSG_SUBSCRIBE, MSG_SUB_ACK};
use rove::json::parse_json;

const REPORT: &str = r#"{"joint_1_pos": 10.5, "joint_6_pos": -3, "joint_2_vel": 1.25,
    "joint_3_current": 0.5, "joint_4_temp": 40, "bus_voltage": 24.5, "timestamp_ns": -7,
    "joint_7_pos": 9}"#;

fn arm(text: &str) -> Option<ArmSnapshot> {
    ArmSnapshot::from_kinova_json(&parse_json(text.as_bytes()).unwrap())
}

fn kinova_cfg() -> KinovaCfg {
    KinovaCfg {
        api_host: "127.0.0.1".to_string(),
        data_port: 5002,
        command_port: 5003,
        subscribe_interval_ms: 20,
        command_rate_hz: 50.0f64.to_bits(),
    }
}

fn entry(ik_id: &str, kinova_idx: u8, invert: bool) -> JointMapEntry {
    JointMapEntry { ik_id: ik_id.to_string(), kinova_idx, home_deg: 180.0f32.to_bits(), invert }
}

fn joint(name: &str, value: f32) -> NamedFloat {
    NamedFloat { name: name.to_string(), value: value.to_bits() }
}

fn command(joints: Vec<NamedFloat>, mode: u32) -> JointCommand {
    JointCommand { joints, mode, residual: 0.25f32.to_bits(), converged: true }
}

#[test]
fn arm_reports_are_read() {
    let s = arm(REPORT).unwrap();
    assert_eq!(s.joint_pos_deg.map(f64::from_bits), [10.5, 0.0, 0.0, 0.0, 0.0, -3.0]);
    assert_eq!(s.joint_vel_deg_s.map(f64::from_bits), [0.0, 1.25, 0.0, 0.0, 0.0, 0.0]);
    assert_eq!(s.joint_current_a.map(f64::from_bits), [0.0, 0.0, 0.5, 0.0, 0.0, 0.0]);
    assert_eq!(s.joint_temp_c.map(f64::from_bits), [0.0, 0.0, 0.0, 40.0, 0.0, 0.0]);
    assert_eq!(f64::from_bits(s.bus_voltage), 24.5);
    assert_eq!(f64::from_bits(s.bus_current), 0.0);
    assert_eq!(s.timestamp_ns, -7);
    assert!(arm(r#"{"joint_1_vel": 1, "joint_7_pos": 1}"#).is_none());
    assert!(arm("[]").is_none());
    assert_eq!(ArmSnapshot::default().joint_pos_deg, [0; 6]);
}

#[test]
fn data_packets_are_told_apart() {
    let snapshot = handle_packet(&frame(MSG_DATA, 1, REPORT.as_bytes()));
    assert!(matches!(snapshot, PacketOutcome::Snapshot(s) if s.timestamp_ns == -7));
    assert!(matches!(handle_packet(&frame(MSG_DATA, 1, b"{}")), PacketOutcome::NoJoints));
    assert!(matches!(handle_packet(&frame(MSG_DATA, 1, b"{")), PacketOutcome::BadJson));
    assert!(matches!(handle_packet(&frame(MSG_SUB_ACK, 1, b"")), PacketOutcome::SubAck));
    assert!(matches!(
        handle_packet(&frame(MSG_ERROR, 1, b"no")),
        PacketOutcome::ApiError(words) if words == b"no"
    ));
    assert!(matches!(handle_packet(&frame(0x42, 1, b"")), PacketOutcome::Unexpected(0x42)));
    assert!(matches!(handle_packet(&[1, 2]), PacketOutcome::NotAPacket));
}

#[test]
fn subscriptions_count_up() {
    let mut sub = DataSubscriber::new(&kinova_cfg());
    let first = sub.subscribe();
    assert_eq!(parse(&first), Some((MSG_SUBSCRIBE, 1, &br#"{"interval_ms":20}"#[..])));
    match sub.step(SubscriberEvent::Renew) {
        SubscriberAction::Send(bytes) => {
            assert_eq!(parse(&bytes).unwrap().1, 2);
            assert_eq!(bytes[4..], first[4..]);
        }
        other => panic!("{:?}", other),
    }
    assert!(matches!(sub.step(SubscriberEvent::ReceiveFailed), SubscriberAction::Wait(200)));
    assert!(matches!(
        sub.step(SubscriberEvent::Received(&frame(MSG_SUB_ACK, 9, b""))),
        SubscriberAction::Handle(PacketOutcome::SubAck)
    ));
    assert_eq!(parse(&sub.subscribe()).unwrap().1, 3);
}

#[test]
fn commands_count_up() {
    let mut sender = CommandSender::connect(&kinova_cfg());
    assert_eq!(sender.address(), "127.0.0.1:5003");
    assert_eq!(sender.send_json(b"{}"), vec![1, 0x10, 1, 0, b'{', b'}']);
    assert_eq!(sender.send_json(b""), vec![1, 0x10, 2, 0]);
}

#[test]
fn acknowledgements_are_told_apart() {
    assert!(matches!(read_ack(&frame(MSG_CMD_ACK, 1, b"")), AckOutcome::Ack));
    assert!(matches!(
        read_ack(&frame(MSG_ERROR, 1, b"why")),
        AckOutcome::ApiError(words) if words == b"why"
    ));
    assert!(matches!(read_ack(&frame(MSG_DATA, 1, b"")), AckOutcome::Unexpected(MSG_DATA)));
    assert!(matches!(read_ack(b"x"), AckOutcome::NotAPacket));
}

#[test]
fn ik_modes_ignore_case() {
    assert_eq!(ik_mode("position_ik"), IkMode::PositionIk.code());
    assert_eq!(ik_mode("Position_IK"), 1);
    for other in ["", "resolved_rate", "position-ik", "position_ik ", "pOSITION_Ik2", "posİtion_ik"] {
        assert_eq!(ik_mode(other), 0, "{}", other);
    }
}

#[test]
fn readings_follow_the_map() {
    let map = vec![entry("b", 6, true), entry("none", 7, false), entry("a", 1, false), entry("z", 0, false)];
    let readings = joint_readings(&map, &arm(REPORT).unwrap());
    let flat: Vec<(&str, f64, f32, bool)> = readings
        .iter()
        .map(|r| (r.name.as_str(), f64::from_bits(r.pos_deg), f32::from_bits(r.home_deg), r.invert))
        .collect();
    assert_eq!(
        flat,
        vec![("b", -3.0, 180.0, true), ("a", 10.5, 180.0, false), ("z", 10.5, 180.0, false)]
    );
}

#[test]
fn velocities_follow_the_map() {
    let map = vec![entry("a", 1, false), entry("b", 2, true), entry("a", 3, false), entry("c", 9, false)];
    let cmd = command(
        vec![joint("a", 1.0), joint("b", 2.0), joint("c", 3.0), joint("x", 4.0), joint("a", 5.0)],
        0,
    );
    let out = map_command(&map, &cmd).unwrap();
    assert_eq!(out.vel_rad_s.map(f32::from_bits), [5.0, -2.0, 0.0, 0.0, 0.0, 0.0]);
    assert_eq!((out.mode, f32::from_bits(out.residual), out.converged), (0, 0.25, true));
    assert!(map_command(&map, &command(vec![joint("a", 1.0)], 1)).is_none());
    assert_eq!(map_command(&map, &command(vec![], 0)).unwrap().vel_rad_s, [0; 6]);
}

#[test]
fn inversion_negates_one_joint() {
    let straight = vec![entry("a", 1, false), entry("b", 6, true), entry("c", 3, false)];
    let turned = vec![entry("a", 1, true), entry("b", 6, true), entry("c", 3, false)];
    let snap = arm(REPORT).unwrap();
    let angle = 0.5f32.to_bits();
    let values = |map: &Vec<JointMapEntry>| -> Vec<f32> {
        joint_readings(map, &snap).iter().map(|r| f32::from_bits(r.value(angle))).collect()
    };
    assert_eq!(values(&straight), vec![0.5, -0.5, 0.5]);
    assert_eq!(values(&turned), vec![-0.5, -0.5, 0.5]);
    let cmd = command(vec![joint("a", 1.0), joint("b", 2.0), joint("c", 3.0)], 0);
    let vel = |map: &Vec<JointMapEntry>| map_command(map, &cmd).unwrap().vel_rad_s.map(f32::from_bits);
    assert_eq!(vel(&straight), [1.0, 0.0, 3.0, 0.0, 0.0, -2.0]);
    assert_eq!(vel(&turned), [-1.0, 0.0, 3.0, 0.0, 0.0, -2.0]);
}

fn moving(n: u32) -> VelocsCommand {
    VelocsCommand { vel_rad_s: [n; 6], mode: 0, residual: 0, converged: false }
}

#[test]
fn silence_stops_the_arm() {
    let mut pusher = ArmPusher::new(3);
    assert_eq!(pusher.tick(false).command.vel_rad_s, [0; 6]);
    pusher.on_command(moving(7));
    assert_eq!(pusher.latest().vel_rad_s, [7; 6]);
    for _ in 0..=3 {
        let tick = pusher.tick(true);
        assert_eq!((tick.command.vel_rad_s, tick.fell_silent), ([7; 6], false));
    }
    let tick = pusher.tick(true);
    assert_eq!((tick.command.vel_rad_s, tick.fell_silent), ([0; 6], true));
    let tick = pusher.tick(false);
    assert_eq!((tick.command.vel_rad_s, tick.fell_silent), ([0; 6], false));
    pusher.on_command(moving(7));
    assert_eq!(pusher.tick(true).command.vel_rad_s, [7; 6]);
    let mut slow = ArmPusher::new(0);
    slow.on_command(moving(7));
    assert_eq!(slow.tick(true).command.vel_rad_s, [7; 6]);
    assert_eq!(slow.tick(true).command.vel_rad_s, [7; 6]);
    assert_eq!(slow.tick(true).command.vel_rad_s, [0; 6]);
}

const SECOND: u64 = 1_000_000_000;

#[test]
fn arm_commands_are_summed_up() {
    let mut pusher = ArmPusher::new(3);
    assert_eq!(pusher.on_sent(true, 5), Some(1));
    assert_eq!(pusher.on_sent(true, 6), None);
    assert_eq!(pusher.on_sent(false, 7), None);
    assert_eq!(pusher.packets(), 1);
    assert_eq!(pusher.on_sent(true, 4 + SECOND), None);
    assert_eq!(pusher.on_sent(false, 5 + SECOND), Some(2));
    assert_eq!(pusher.packets(), 0);
}

#[test]
fn engine_commands_are_summed_up() {
    let map = vec![entry("a", 1, false), entry("b", 2, true)];
    let mut listener = VelocsListener::new();
    let first = listener.on_command(&map, &command(vec![joint("b", 2.0)], 0), 0);
    assert_eq!(first.forward.unwrap().vel_rad_s.map(f32::from_bits)[1], -2.0);
    assert_eq!(
        first.summary,
        Some(VelocsSummary { frames: 1, peak_rad_s: 2.0f32.to_bits() })
    );
    let positions = listener.on_command(&map, &command(vec![joint("b", 9.0)], 1), 1);
    assert!(positions.forward.is_none() && positions.summary.is_none());
    for value in [1.5, -3.0, f32::NAN, 0.5] {
        let report = listener.on_command(&map, &command(vec![joint("a", value)], 0), 2);
        assert!(report.forward.is_some() && report.summary.is_none());
    }
    assert_eq!(listener.frames(), 4);
    let report = listener.on_command(&map, &command(vec![], 0), SECOND);
    assert_eq!(
        report.summary,
        Some(VelocsSummary { frames: 5, peak_rad_s: 3.0f32.to_bits() })
    );
    let report = listener.on_command(&map, &command(vec![], 0), 2 * SECOND);
    assert_eq!(report.summary, Some(VelocsSummary { frames: 1, peak_rad_s: 0 }));
}

#[test]
fn readings_are_counted() {
    let mut pusher = JointPusher::new();
    let mut lines = Vec::new();
    assert_eq!(pusher.on_sent(false), None);
    for _ in 0..20_000 {
        if let Some(n) = pusher.on_sent(true) {
            lines.push(n);
        }
    }
    assert_eq!(lines, vec![1, 100, 1_000, 10_000]);
    assert_eq!(pusher.packets(), 20_000);
}

#[test]
fn full_queues_lose_the_oldest_command() {
    let mut queue = CommandQueue::new();
    assert!(queue.pop().is_none());
    for n in 0..QUEUE_LEN as u32 + 3 {
        queue.push(moving(n));
    }
    for n in 3..QUEUE_LEN as u32 + 3 {
        assert_eq!(queue.pop().unwrap().vel_rad_s, [n; 6]);
    }
    assert!(queue.pop().is_none());
}

fn ovis() -> OvisTwist {
    OvisTwist {
        orientation: Orientation { yaw: 1, pitch: 2, roll: 3 },
        position: Vector3 { x: 4, y: 5, z: 6 },
    }
}

fn twist_sender(mode: &str) -> TwistSender {
    TwistSender::connect(&IkEngineCfg {
        host: "localhost".to_string(),
        joints_port: 9501,
        twist_port: 9502,
        velocs_listen_host: "0.0.0.0".to_string(),
        velocs_listen_port: 9503,
        mode: mode.to_string(),
    })
}

#[test]
fn twists_carry_mode_and_time() {
    let sender = twist_sender("POSITION_ik");
    assert_eq!((sender.address.as_str(), sender.mode), ("localhost:9502", 1));
    assert_eq!(twist_sender("").mode, 0);
    let t = sender.send(&ovis(), 99);
    assert_eq!((t.orientation, t.position, t.mode, t.t_us), (ovis().orientation, ovis().position, 1, 99));
}

fn teleop_cfg(host: &str) -> TeleopCfg {
    TeleopCfg {
        listen_host: "0.0.0.0".to_string(),
        listen_port: 7000,
        telemetry_host: host.to_string(),
        telemetry_port: 7001,
        telemetry_rate_hz: 20.0f64.to_bits(),
    }
}

#[test]
fn telemetry_finds_its_way() {
    assert_eq!(static_destination(&teleop_cfg(" \t")), None);
    assert_eq!(static_destination(&teleop_cfg("10.0.0.9")).as_deref(), Some("10.0.0.9:7001"));
    let mut peers = PeerTracker::default();
    assert_eq!(telemetry_destination(None, &peers, 7001), None);
    let deck = PeerAddress::V4 { ip: 0x0A00_0005, port: 4242 };
    peers.update(deck);
    assert_eq!(peers.get(), Some(deck));
    assert_eq!(
        telemetry_destination(None, &peers, 7001),
        Some(PeerAddress::V4 { ip: 0x0A00_0005, port: 7001 })
    );
    let fixed = PeerAddress::V6 { ip: 1, port: 1, flowinfo: 0, scope_id: 0 };
    assert_eq!(telemetry_destination(Some(fixed), &peers, 7001), Some(fixed));
}

#[test]
fn a_fixed_address_keeps_its_scope() {
    let link_local = 0xFE80_0000_0000_0000_0000_0000_0000_0001u128;
    let address = PeerAddress::V6 { ip: link_local, port: 7001, flowinfo: 5, scope_id: 2 };
    let mut peers = PeerTracker::default();
    assert_eq!(telemetry_destination(Some(address), &peers, 9), Some(address));
    peers.update(address);
    assert_eq!(peers.get(), Some(address));
    assert_eq!(address.ip(), IpAddress::V6(link_local));
    assert_eq!(
        telemetry_destination(None, &peers, 9),
        Some(PeerAddress::V6 { ip: link_local, port: 9, flowinfo: 0, scope_id: 0 })
    );
    assert_eq!(
        PeerAddress::new(IpAddress::V4(3), 4),
        PeerAddress::V4 { ip: 3, port: 4 }
    );
}

#[test]
fn every_joint_has_its_field() {
    let command = VelocsCommand {
        vel_rad_s: [10, 20, 30, 40, 50, 60],
        residual: 7,
        converged: true,
        mode: IkMode::ResolvedRate.code(),
    };
    let expected: Vec<(String, u32)> = [
        ("joint_1_vel", 10),
        ("joint_2_vel", 20),
        ("joint_3_vel", 30),
        ("joint_4_vel", 40),
        ("joint_5_vel", 50),
        ("joint_6_vel", 60),
    ]
    .iter()
    .map(|(key, bits)| (key.to_string(), *bits))
    .collect();
    assert_eq!(command.fields(), expected);
}

#[test]
fn telemetry_mirrors_the_arm() {
    let t = build_telemetry(&arm(REPORT).unwrap(), 5);
    assert_eq!((t.timestamp_us, t.machine_state), (5, 0));
    let acts = [t.ovis.act_1, t.ovis.act_2, t.ovis.act_3, t.ovis.act_4, t.ovis.act_5, t.ovis.act_6];
    for (i, a) in acts.iter().enumerate() {
        assert_eq!(a.node_id, i as u32 + 1);
        assert_eq!((a.node_state, a.active_errors, a.latched_errors), (1, 0, 0));
    }
    assert_eq!(f64::from_bits(acts[0].motor_pos), 10.5);
    assert_eq!(f64::from_bits(acts[2].motor_amp), 0.5);
    assert_eq!(f64::from_bits(acts[3].node_temp_c), 40.0);
    assert_eq!(acts[3].node_temp_c, acts[3].motor_temp_c);
}

#[test]
fn time_stamps_are_cut_to_size() {
    assert_eq!(now_us(None), 0);
    assert_eq!(now_us(Some(17)), 17);
    assert_eq!(now_us(Some((1u128 << 64) + 3)), 3);
}

fn packet(grip: bool, moving: bool, drifted: bool) -> ControlPacket {
    ControlPacket {
        ovis: ovis(),
        snap: TwistSnapshot {
            px: 4, py: 5, pz: 6, oy: 1, op: 2, or: 3, tl: 0, tr: 0, fl: 0, fr: 0, rl: 0, rr: 0, grip,
        },
        linear: if drifted { 2.0f32 } else { 1.0f32 }.to_bits(),
        angular: 0.5f32.to_bits(),
        moving,
        drifted,
    }
}

fn summary(packets: u64, peer: PeerAddress, total: u64, peak: f32) -> LinkSummary {
    LinkSummary {
        packets,
        peer,
        total,
        peak_linear: peak.to_bits(),
        peak_angular: 0.5f32.to_bits(),
    }
}

#[test]
fn every_decoded_datagram_is_forwarded_once() {
    let mut peers = PeerTracker::default();
    let mut link = ControlLink::new();
    let twist = twist_sender("");
    let peer = |n: u16| PeerAddress::V4 { ip: n as u32, port: n };
    let zero = ControlPacket {
        ovis: OvisTwist {
            orientation: Orientation { yaw: 0, pitch: 0, roll: 0 },
            position: Vector3 { x: 0, y: 0, z: 0 },
        },
        ..packet(false, false, false)
    };
    let datagrams =
        [(1, None), (2, Some(packet(false, true, true))), (3, None), (4, Some(zero)), (5, None)];
    let mut twists = Vec::new();
    for (n, decoded) in datagrams {
        let report = link.on_datagram(&mut peers, peer(n), decoded, &twist, n as u64, 0);
        twists.extend(report.map(|r| r.twist));
    }
    assert_eq!(twists, vec![twist.send(&ovis(), 2), twist.send(&zero.ovis, 4)]);
    assert_eq!(peers.get(), Some(peer(4)));
    assert_eq!(link.received(), 2);
}

#[test]
fn control_packets_are_forwarded_and_throttled() {
    let a = PeerAddress::V4 { ip: 1, port: 10 };
    let b = PeerAddress::V4 { ip: 2, port: 20 };
    let mut peers = PeerTracker::default();
    let mut link = ControlLink::new();
    let twist = twist_sender("resolved_rate");
    let r = link.on_control(&mut peers, a, &packet(false, false, false), &twist, 11, 5);
    assert_eq!(r.twist, twist.send(&ovis(), 11));
    assert!(r.log);
    assert_eq!(r.summary, Some(summary(1, a, 1, 1.0)));
    assert_eq!(peers.get(), Some(a));
    let r = link.on_control(&mut peers, b, &packet(false, true, false), &twist, 12, 6);
    assert_eq!((r.log, r.summary), (false, None));
    assert_eq!(peers.get(), Some(b));
    let r = link.on_control(&mut peers, b, &packet(false, true, true), &twist, 13, 7);
    assert!(r.log);
    let r = link.on_control(&mut peers, b, &packet(true, false, false), &twist, 14, 8);
    assert!(r.log);
    assert!(link.last_logged().unwrap().grip);
    let r = link.on_control(&mut peers, a, &packet(false, false, true), &twist, 15, 5 + SECOND);
    assert!(!r.log);
    assert_eq!(r.summary, Some(summary(4, b, 5, 2.0)));
    let r = link.on_control(&mut peers, a, &packet(false, false, false), &twist, 16, 8 + 2 * SECOND);
    assert!(r.log);
    assert_eq!(link.received(), 6);
}
