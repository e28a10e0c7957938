use rove::multiplexer::app_config::{
    resolve_config_path, sort_inputs, AppConfig, ConfigChoice, GlobalSettings,
};
use rove::multiplexer::models::{Input, Output};
use rove::multiplexer::proto_registry::{
    lookup, registry, validate_rove_control, validate_rove_telemetry, Validator,
};
use rove::multiplexer::selector::{
    accept, ingest, pick_winner, resolve_validators, Incoming, LatestPacket, Listener,
    ListenerAction, ListenerEvent, Selector,
};
use rove::multiplexer::test_support::{
    exit_code, failover_windows, is_junk, judge, pace, pf, suite_inputs, suite_plan, suite_result,
    tally, Counts, Received, ScenarioTimes, SenderPlan, SetupError, Verdict,
};

const MS: u128 = 1_000_000;
const JUNK: &[u8] = b"GARBAGE_BYTES_NOT_A_VALID_PROTO_MESSAGE";

fn input(socket: u32, priority: u16, protobuf: &str) -> Input<u32> {
    Input { socket, priority, protobuf: protobuf.to_string() }
}

fn control(timestamp_us: u64) -> Vec<u8> {
    let mut out = Vec::new();
    prost::encoding::uint64::encode(4, &timestamp_us, &mut out);
    out
}

fn telemetry(timestamp_us: u64) -> Vec<u8> {
    let mut drive = Vec::new();
    prost::encoding::uint32::encode(1, &11, &mut drive);
    prost::encoding::float::encode(8, &1.5f32, &mut drive);
    let mut ovis = Vec::new();
    prost::encoding::bytes::encode(6, &drive, &mut ovis);
    let mut position = Vec::new();
    prost::encoding::double::encode(1, &45.5f64, &mut position);
    let mut navigation = Vec::new();
    prost::encoding::bytes::encode(1, &position, &mut navigation);
    let mut out = Vec::new();
    prost::encoding::bytes::encode(2, &ovis, &mut out);
    prost::encoding::bytes::encode(3, &navigation, &mut out);
    prost::encoding::uint64::encode(7, &timestamp_us, &mut out);
    out
}

fn incoming(input_index: usize, priority: u16, timestamp_us: u64) -> Incoming {
    Incoming { input_index, priority, timestamp_us, bytes: control(timestamp_us) }
}

#[test]
fn inputs_are_sorted_stably() {
    let sorted = sort_inputs(vec![
        input(0, 3, "a"),
        input(1, 1, "b"),
        input(2, 3, "c"),
        input(3, 2, "d"),
        input(4, 1, "e"),
    ]);
    let order: Vec<(u32, u16)> = sorted.iter().map(|i| (*i.socket(), i.priority())).collect();
    assert_eq!(order, vec![(1, 1), (4, 1), (3, 2), (0, 3), (2, 3)]);
    assert_eq!(sorted[0].protobuf(), "b");
}

#[test]
fn settings_have_defaults() {
    let out = || vec![Output { socket: 9u32, protobuf: "p".to_string() }];
    let app: AppConfig<u32, u32> = AppConfig::new(vec![], vec![], out());
    assert_eq!((app.emit_interval_ms, app.staleness_ms), (10, 500));
    assert_eq!(app.path_to_protobuf, "");
    assert_eq!((*app.outputs[0].socket(), app.outputs[0].protobuf()), (9, "p"));
    let settings = |path: &str, emit, stale| GlobalSettings {
        path_to_protobuf: path.to_string(),
        emit_interval_ms: emit,
        staleness_ms: stale,
    };
    let app: AppConfig<u32, u32> = AppConfig::new(
        vec![settings("x", Some(20), None), settings("y", Some(1), Some(2))],
        vec![input(0, 2, "a"), input(1, 1, "b")],
        out(),
    );
    assert_eq!((app.emit_interval_ms, app.staleness_ms), (20, 500));
    assert_eq!(app.path_to_protobuf, "x");
    assert_eq!(app.inputs[0].priority(), 1);
}

#[test]
fn configuration_file_is_found() {
    let resolve = |args: &[&str], env: Option<&str>| {
        let args: Vec<String> = args.iter().map(|a| a.to_string()).collect();
        resolve_config_path(&args, env.map(|e| e.to_string()))
    };
    assert!(matches!(resolve(&[], None), ConfigChoice::Path(p) if p == "config.toml"));
    assert!(matches!(resolve(&[], Some("e")), ConfigChoice::Path(p) if p == "e"));
    assert!(matches!(resolve(&["--config", "f"], Some("e")), ConfigChoice::Path(p) if p == "f"));
    assert!(matches!(resolve(&["--config"], None), ConfigChoice::MissingPath));
    assert!(matches!(resolve(&["-h"], None), ConfigChoice::Help));
    assert!(matches!(resolve(&["--help", "x"], None), ConfigChoice::Help));
    assert!(matches!(resolve(&["x", "--config", "f"], None), ConfigChoice::Unknown(a) if a == "x"));
}

#[test]
fn registry_knows_two_messages() {
    let reg = registry();
    assert_eq!(reg.len(), 2);
    assert_eq!(lookup(&reg, "RoveControl.proto"), Some(Validator::RoveControl));
    assert_eq!(lookup(&reg, "RoveTelemetry.proto"), Some(Validator::RoveTelemetry));
    assert_eq!(lookup(&reg, "rovecontrol.proto"), None);
    let twice = vec![("a", Validator::RoveTelemetry), ("a", Validator::RoveControl)];
    assert_eq!(lookup(&twice, "a"), Some(Validator::RoveTelemetry));
    assert_eq!(lookup(&Vec::new(), "a"), None);
}

#[test]
fn validators_read_time_stamps() {
    assert_eq!(validate_rove_control(&control(17)), Some(17));
    assert_eq!(validate_rove_control(b""), Some(0));
    assert_eq!(validate_rove_telemetry(&telemetry(18)), Some(18));
    assert_eq!(Validator::RoveTelemetry.validate(&telemetry(19)), Some(19));
    for v in [Validator::RoveControl, Validator::RoveTelemetry] {
        assert_eq!(v.validate(JUNK), None);
    }
    let mut bad = telemetry(1);
    bad.truncate(bad.len() - 1);
    assert_eq!(validate_rove_telemetry(&bad), None);
    assert_eq!(validate_rove_telemetry(&[0x3D, 0, 0, 0, 0]), None);
}

#[test]
fn inputs_get_their_validators() {
    let inputs = vec![input(0, 1, "RoveTelemetry.proto"), input(1, 2, "RoveControl.proto")];
    assert_eq!(
        resolve_validators(&inputs).unwrap(),
        vec![Validator::RoveTelemetry, Validator::RoveControl]
    );
    let inputs = vec![input(0, 1, "RoveControl.proto"), input(1, 2, "?"), input(2, 2, "!")];
    assert_eq!(resolve_validators(&inputs).unwrap_err(), 1);
}

#[test]
fn junk_is_not_accepted() {
    assert!(accept(0, 1, Validator::RoveControl, JUNK).is_none());
    let msg = accept(3, 2, Validator::RoveControl, &control(5)).unwrap();
    assert_eq!((msg.input_index, msg.priority, msg.timestamp_us), (3, 2, 5));
    assert_eq!(msg.bytes, control(5));
}

#[test]
fn listeners_pass_on_what_is_valid() {
    let listener = Listener { input_index: 2, priority: 7, validator: Validator::RoveControl };
    let mut passed = Vec::new();
    for bytes in [control(3), JUNK.to_vec(), control(1), vec![0], control(2)] {
        match listener.step(ListenerEvent::Datagram(&bytes)) {
            ListenerAction::Forward(msg) => {
                assert_eq!((msg.input_index, msg.priority), (2, 7));
                assert_eq!(msg.bytes, bytes);
                passed.push(msg.timestamp_us);
            }
            ListenerAction::Dropped => {}
            ListenerAction::Stop => panic!("stopped"),
        }
    }
    assert_eq!(passed, vec![3, 1, 2]);
    assert!(matches!(listener.step(ListenerEvent::Failed), ListenerAction::Stop));
}

#[test]
fn slots_keep_the_newest_packet() {
    let mut latest: Vec<Option<LatestPacket>> = Vec::new();
    ingest(&mut latest, incoming(2, 1, 5), 10);
    assert_eq!(latest.len(), 3);
    assert!(latest[0].is_none());
    ingest(&mut latest, incoming(2, 1, 5), 11);
    assert_eq!(latest[2].as_ref().unwrap().received_at, 10);
    ingest(&mut latest, incoming(2, 1, 4), 12);
    assert_eq!(latest[2].as_ref().unwrap().timestamp_us, 5);
    ingest(&mut latest, incoming(2, 1, 6), 13);
    let p = latest[2].as_ref().unwrap();
    assert_eq!((p.timestamp_us, p.received_at, p.bytes.clone()), (6, 13, control(6)));
    ingest(&mut latest, incoming(0, 1, 1), 14);
    assert_eq!(latest[0].as_ref().unwrap().timestamp_us, 1);
}

#[test]
fn winner_is_fresh_important_new_and_first() {
    let slot = |priority, timestamp_us, received_at| {
        Some(LatestPacket { priority, timestamp_us, bytes: vec![], received_at })
    };
    let latest = vec![None, slot(2, 9, 100), slot(1, 5, 50), slot(1, 6, 60), slot(1, 6, 70)];
    assert_eq!(pick_winner(&latest, 50, 100), Some(3));
    assert_eq!(pick_winner(&latest, 50, 110), Some(3));
    assert_eq!(pick_winner(&latest, 50, 111), Some(4));
    assert_eq!(pick_winner(&latest, 50, 121), Some(1));
    assert_eq!(pick_winner(&latest, 50, 151), None);
    assert_eq!(pick_winner(&latest, 0, 40), Some(3));
    assert_eq!(pick_winner(&Vec::new(), 50, 0), None);
}

#[test]
fn selector_prefers_priority_and_fails_over() {
    let mut s = Selector::new(10, 500, 0);
    assert_eq!(s.wait(3 * MS), 7 * MS);
    assert_eq!(s.wait(11 * MS), 0);
    assert!(s.on_tick(10 * MS).is_none());
    s.on_packet(incoming(1, 2, 100), 11 * MS);
    s.on_packet(incoming(0, 1, 50), 12 * MS);
    let out = s.on_tick(20 * MS).unwrap();
    assert_eq!((out.input_index, out.priority, out.timestamp_us), (0, 1, 50));
    assert_eq!(out.bytes, control(50));
    assert!(s.on_tick(30 * MS).is_none());
    s.on_packet(incoming(0, 1, 50), 31 * MS);
    assert!(s.on_tick(40 * MS).is_none());
    s.on_packet(incoming(0, 1, 51), 41 * MS);
    assert_eq!(s.on_tick(50 * MS).unwrap().timestamp_us, 51);
    s.on_packet(incoming(1, 2, 101), 500 * MS);
    assert!(s.on_tick(541 * MS).is_none());
    let out = s.on_tick(542 * MS).unwrap();
    assert_eq!((out.input_index, out.timestamp_us), (1, 101));
    s.on_packet(incoming(0, 1, 52), 543 * MS);
    assert_eq!(s.on_tick(550 * MS).unwrap().input_index, 0);
    assert!(s.on_tick(5_000 * MS).is_none());
}

#[test]
fn ticks_keep_their_rhythm() {
    let mut s = Selector::new(10, 500, 0);
    assert!(s.can_advance(12 * MS));
    s.advance(12 * MS);
    assert_eq!(s.wait(12 * MS), 8 * MS);
    s.advance(20 * MS);
    assert_eq!(s.wait(20 * MS), 10 * MS);
    s.advance(95 * MS);
    assert_eq!(s.wait(95 * MS), 10 * MS);
    assert!(!s.can_advance(u128::MAX));
}

fn received(priority: Option<u16>, at: u128) -> Received {
    Received { priority, at, decoded_ok: priority.is_some() }
}

#[test]
fn packets_are_tallied_by_sender() {
    let logs = vec![
        vec![received(Some(1), 9), received(Some(1), 10), received(Some(2), 15), received(None, 20)],
        vec![received(Some(3), 20), received(Some(1), 20), received(Some(1), 21)],
    ];
    assert_eq!(tally(&logs, 10, 20), Counts { prio1: 2, prio2: 1, other: 1, bad: 1 });
    assert_eq!(tally(&logs, 30, 40), Counts::default());
    assert_eq!(tally(&Vec::new(), 0, 1), Counts::default());
}

#[test]
fn suites_need_two_priorities_and_an_output() {
    assert_eq!(suite_inputs(&vec![3, 1, 2, 1], 1), Ok((1, 2)));
    assert_eq!(suite_inputs(&vec![1, 3], 1), Err(SetupError::MissingPriority));
    assert_eq!(suite_inputs(&vec![2], 0), Err(SetupError::MissingPriority));
    assert_eq!(suite_inputs(&vec![1, 2], 0), Err(SetupError::NoOutput));
}

#[test]
fn scenarios_are_planned() {
    let plan = suite_plan(500);
    let sender = |priority, for_ms, mix_junk| SenderPlan { priority, for_ms, mix_junk };
    assert_eq!(plan.len(), 3);
    assert_eq!(plan[0].senders, vec![sender(1, 1500, false), sender(2, 1500, false)]);
    assert_eq!(plan[1].senders, vec![sender(1, 1500, true)]);
    assert_eq!(plan[2].senders, vec![sender(1, 800, false), sender(2, 2000, false)]);
    assert!(plan.iter().all(|s| s.settle_ms == 100 && s.quiet_ms == 600));
    let windows = failover_windows(7, 500);
    assert_eq!((windows.early_to, windows.late_from), (7 + 800 * MS, 7 + 1450 * MS));
}

#[test]
fn verdicts_are_judged() {
    let counts = |prio1, prio2, bad| Counts { prio1, prio2, other: 0, bad };
    let good = judge(&counts(5, 0, 0), &counts(5, 0, 0), &counts(1, 0, 0), &counts(0, 1, 0));
    assert!(good.priority && good.junk && good.staleness);
    assert_eq!(exit_code(&good), 0);
    let bad = judge(&counts(5, 1, 0), &counts(5, 0, 1), &counts(1, 0, 0), &counts(1, 1, 0));
    assert!(!bad.priority && !bad.junk && !bad.staleness);
    assert_eq!(exit_code(&bad), 1);
    let quiet = judge(&counts(0, 0, 0), &counts(0, 0, 0), &counts(0, 0, 0), &counts(0, 1, 0));
    assert!(!quiet.priority && !quiet.junk && !quiet.staleness);
    assert_eq!((pf(true), pf(false)), ("PASS", "FAIL"));
}

#[test]
fn senders_keep_their_pace() {
    assert!(is_junk(true, 0) && is_junk(true, 5) && !is_junk(true, 4) && !is_junk(false, 0));
    assert_eq!(pace(100, 20, 110), (120, 10));
    assert_eq!(pace(100, 20, 120), (120, 0));
    assert_eq!(pace(100, 20, 500), (500, 0));
}

#[test]
fn a_suite_is_judged_by_its_logs() {
    let seen = |at_ms: u128, priority: Option<u16>| Received {
        priority,
        at: at_ms * MS,
        decoded_ok: priority.is_some(),
    };
    let times = |start: u128, end: u128| ScenarioTimes { start: start * MS, end: end * MS };
    let (a, b, c) = (times(200, 1800), times(2200, 3800), times(4200, 6100));
    // The first sender of the third scenario stops at 5000; from 5350 on, which
    // is 200 of staleness and 150 of slack later, only the second may be seen.
    let mut logs = vec![
        vec![seen(200, Some(1)), seen(1800, Some(1)), seen(1801, Some(2)), seen(2200, Some(1))],
        vec![seen(5000, Some(1)), seen(5001, Some(2)), seen(5349, Some(1)), seen(5350, Some(2))],
    ];
    let count = |prio1: u64, prio2: u64| Counts { prio1, prio2, other: 0, bad: 0 };
    let r = suite_result(&logs, a, b, c, 200);
    assert_eq!((r.a, r.b), (count(2, 0), count(1, 0)));
    assert_eq!((r.early, r.late), (count(1, 0), count(0, 1)));
    assert_eq!(r.verdict, Verdict { priority: true, junk: true, staleness: true });
    assert_eq!(r.code, 0);
    assert_eq!(suite_result(&logs, a, b, c, 199).code, 1);
    logs[0].push(seen(3000, None));
    let r = suite_result(&logs, a, b, c, 200);
    assert_eq!(r.b.bad, 1);
    assert_eq!(r.verdict, Verdict { priority: true, junk: false, staleness: true });
    assert_eq!(r.code, 1);
    logs[0].push(seen(1000, Some(2)));
    assert!(!suite_result(&logs, a, b, c, 200).verdict.priority);
    assert_eq!(suite_result(&Vec::new(), a, b, c, 200).code, 1);
}
