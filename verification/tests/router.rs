use rove::command_router::api_client::ApiClient;
use rove::command_router::commands::drive::{DriveCommand, NormalizedDriveCommand};
use rove::command_router::commands::estop::EstopCommand;
use rove::command_router::commands::Outgoing;
use rove::command_router::config::{
    ApiConfig, Config, DriveMode, EndpointConfig, RobotConfig, StrategyConfig,
};
use rove::command_router::robot_state::{NodeReply, RobotState};
use rove::command_router::router::{
    parse_control, parse_json_control, CommandRouter, ControlCommand, Endpoint, EndpointKind,
    RouterAction,
};
use rove::command_router::runs::{Cancelling, RunTable, Starting};
use rove::command_router::strategies::Strategy;
use rove::json::parse_json;
use rove::scalar::Scalar;

fn single(x: f32) -> Scalar {
    Scalar::Single(x.to_bits())
}

fn double(x: f64) -> Scalar {
    Scalar::Double(x.to_bits())
}

fn router() -> CommandRouter {
    let config = Config {
        api: ApiConfig { host: "h".to_string(), http_port: 80 },
        endpoints: EndpointConfig { estop_port: 9000, control_port: 9001 },
        strategies: StrategyConfig { base_port: 9010 },
        robot: RobotConfig {
            left_nodes: vec![1],
            right_nodes: vec![2],
            drive_mode: DriveMode::Velocity,
            max_velocity: single(2.0),
            max_torque: single(1.0),
            command_interval_ms: 20,
        },
    };
    let mut api = ApiClient::new("h", 80);
    api.discover(br#"{"sensors": [{"id": "odrive_1", "command_port": 5}]}"#).unwrap();
    CommandRouter::new(&config, api, RobotState::new(100))
}

fn words(actions: Vec<RouterAction>) -> Vec<String> {
    actions
        .iter()
        .map(|a| match a {
            RouterAction::CancelActive(name, run) => format!("cancel {} {}", name, run),
            RouterAction::Estop => "estop".to_string(),
            RouterAction::ClearErrors => "clear".to_string(),
            RouterAction::Drive(_) => "drive".to_string(),
            RouterAction::Start(i, run, params) => {
                format!("start {} {} {:?}", i, run, params.u64_at("laps"))
            }
        })
        .collect()
}

/// Starts a strategy and hands out the number of its run.
fn start(r: &mut CommandRouter, name: &str) -> u64 {
    match r.on_strategy(name, br#"{"params": {"laps": 2}}"#).last() {
        Some(RouterAction::Start(_, run, _)) => *run,
        other => panic!("{:?}", other),
    }
}

/// A message with the two track velocities and a time stamp.
fn control_message(left: f32, right: f32, timestamp_us: u64) -> Vec<u8> {
    let mut tracks = Vec::new();
    prost::encoding::float::encode(1, &left, &mut tracks);
    prost::encoding::float::encode(2, &right, &mut tracks);
    let mut out = Vec::new();
    prost::encoding::bytes::encode(1, &tracks, &mut out);
    prost::encoding::uint64::encode(4, &timestamp_us, &mut out);
    out
}

#[test]
fn endpoints_follow_the_configuration() {
    let r = router();
    assert_eq!(
        r.endpoints(),
        vec![
            Endpoint { port: 9000, kind: EndpointKind::Estop },
            Endpoint { port: 9001, kind: EndpointKind::Control },
            Endpoint { port: 9010, kind: EndpointKind::Strategy(0) },
            Endpoint { port: 9011, kind: EndpointKind::Strategy(1) },
        ]
    );
    assert_eq!(r.strategy(1).unwrap().name(), "point_turn");
    assert!(r.strategy(2).is_none());
}

#[test]
fn control_packets_are_json_or_messages() {
    assert_eq!(
        parse_control(br#"{"left_vel": 0.5, "right_vel": -1, "left": 1, "right": 2}"#),
        Some(ControlCommand::Normalized(NormalizedDriveCommand {
            left_norm: double(0.5),
            right_norm: double(-1.0),
        }))
    );
    assert_eq!(
        parse_control(br#"{"left_vel": 0.5, "left": 3, "right": 2.25}"#),
        Some(ControlCommand::Absolute(DriveCommand { left: double(3.0), right: double(2.25) }))
    );
    assert_eq!(parse_control(br#"{"left": 3}"#), None);
    assert_eq!(parse_control(b"{not json"), None);
    assert_eq!(
        parse_control(&control_message(0.25, -0.5, 77)),
        Some(ControlCommand::Normalized(NormalizedDriveCommand {
            left_norm: single(0.25),
            right_norm: single(-0.5),
        }))
    );
    assert_eq!(
        parse_control(b" {\"left\": 1, \"right\": 1}"),
        Some(ControlCommand::Absolute(DriveCommand { left: double(1.0), right: double(1.0) }))
    );
    assert_eq!(parse_control(b""), None);
    assert_eq!(parse_json_control(b"[1]"), None);
}

#[test]
fn message_without_tracks_is_no_command() {
    let mut only_time = Vec::new();
    prost::encoding::uint64::encode(4, &5u64, &mut only_time);
    assert_eq!(parse_control(&only_time), None);
}

#[test]
fn operators_drive_and_override() {
    let mut r = router();
    assert_eq!(words(r.on_control(br#"{"left": 1, "right": 1}"#)), vec!["drive"]);
    assert_eq!(start(&mut r, "point_turn"), 0);
    assert_eq!(
        words(r.on_control(br#"{"left": 1, "right": 1}"#)),
        vec!["cancel point_turn 0", "drive"]
    );
    assert_eq!(start(&mut r, "point_turn"), 1);
    assert_eq!(words(r.on_control(b"??")), vec!["cancel point_turn 1"]);
    assert_eq!(words(r.on_control(b"??")), Vec::<String>::new());
}

#[test]
fn strategies_start_and_stop() {
    let mut r = router();
    assert_eq!(
        words(r.on_strategy("square_pattern", br#"{"action": "start", "params": {"laps": 3}}"#)),
        vec!["start 0 0 Some(3)"]
    );
    assert_eq!(words(r.on_strategy("point_turn", br#"{"action": "stop"}"#)), Vec::<String>::new());
    assert_eq!(
        words(r.on_strategy("point_turn", b"{}")),
        vec!["cancel square_pattern 0", "start 1 1 None"]
    );
    assert_eq!(
        words(r.on_strategy("point_turn", b"{}")),
        vec!["cancel point_turn 1", "start 1 2 None"]
    );
    assert_eq!(
        words(r.on_strategy("point_turn", br#"{"action": "stop"}"#)),
        vec!["cancel point_turn 2"]
    );
    assert_eq!(words(r.on_strategy("point_turn", br#"{"action": "stop"}"#)), Vec::<String>::new());
    assert_eq!(words(r.on_strategy("point_turn", br#"{"action": "dance"}"#)), Vec::<String>::new());
    assert_eq!(words(r.on_strategy("point_turn", b"bad")), Vec::<String>::new());
    start(&mut r, "point_turn");
    assert_eq!(words(r.on_strategy("unknown", b"{}")), vec!["cancel point_turn 3"]);
}

#[test]
fn start_without_params_has_an_empty_object() {
    let mut r = router();
    let actions = r.on_strategy("point_turn", br#"{"action": 7}"#);
    match &actions[0] {
        RouterAction::Start(1, 0, params) => {
            assert!(params.get("laps").is_none());
            assert!(matches!(params, rove::json::Json::Object(fields) if fields.is_empty()));
        }
        other => panic!("{:?}", other),
    }
}

#[test]
fn emergency_stop_blocks_until_cleared() {
    let mut r = router();
    start(&mut r, "square_pattern");
    assert_eq!(words(r.on_estop()), vec!["cancel square_pattern 0", "estop"]);
    assert!(r.is_estopped());
    assert_eq!(words(r.on_estop()), vec!["estop"]);
    assert_eq!(words(r.on_control(br#"{"left": 1, "right": 1}"#)), Vec::<String>::new());
    assert_eq!(words(r.on_control(br#"{"clear_errors": 1}"#)), Vec::<String>::new());
    assert_eq!(words(r.on_control(br#"{"clear_errors": false}"#)), Vec::<String>::new());
    assert_eq!(words(r.on_strategy("point_turn", b"{}")), Vec::<String>::new());
    assert_eq!(words(r.on_control(br#"{"clear_errors": true, "left": 1, "right": 1}"#)), vec!["clear"]);
    assert!(!r.is_estopped());
    assert_eq!(words(r.on_control(br#"{"clear_errors": true}"#)), Vec::<String>::new());
    assert_eq!(words(r.on_strategy("point_turn", b"{}")), vec!["start 1 1 None"]);
}

#[test]
fn ended_strategies_zero_the_drives() {
    let mut r = router();
    let first = start(&mut r, "square_pattern");
    let second = start(&mut r, "square_pattern");
    let sent = r.on_strategy_exit(first);
    assert_eq!(sent.len(), 2);
    match &sent[1] {
        Outgoing::Drive(c) => assert_eq!((c.node_id, c.setpoint), (2, single(-0.0))),
        other => panic!("{:?}", other),
    }
    assert_eq!(words(r.on_control(b"")), vec![format!("cancel square_pattern {}", second)]);
    let third = start(&mut r, "square_pattern");
    r.on_strategy_exit(third);
    assert_eq!(words(r.on_control(b"")), Vec::<String>::new());
}

#[test]
fn stop_right_behind_a_start_cancels_it() {
    let mut r = router();
    let run = start(&mut r, "point_turn");
    assert_eq!(words(r.on_estop()), vec![format!("cancel point_turn {}", run), "estop".to_string()]);
    r.on_strategy_exit(run);
    assert_eq!(words(r.on_estop()), vec!["estop"]);
    assert!(r.is_estopped());
}

#[test]
fn commands_run_through_the_router() {
    let mut r = router();
    assert_eq!(r.execute(&EstopCommand).len(), 1);
    assert_eq!(r.command_context().api.node_ids(), vec![1]);
    assert_eq!(r.send_drive_udp(1, b"p").unwrap().bytes, vec![1, 0x10, 0, 0, b'p']);
    assert_eq!(r.send_drive_udp(1, b"p").unwrap().address, "h:5");
    assert!(r.send_drive_udp(2, b"p").is_none());
}

#[test]
fn the_telemetry_of_a_poll_is_in_the_context() {
    let mut r = router();
    assert_eq!(r.command_context().state.interval_ms(), 100);
    assert!(r.command_context().state.node(1).is_none());
    let reply = |node_id: u8, text: &[u8]| NodeReply { node_id, data: parse_json(text).ok() };
    r.poll_once(vec![reply(1, br#"{"v": 7}"#), reply(2, b"null"), reply(3, b"{")]);
    let state = &r.command_context().state;
    assert_eq!(state.node(1).unwrap().u64_at("v"), Some(7));
    assert!(state.node(2).is_none());
    assert_eq!(state.all().len(), 1);
    r.poll_once(vec![reply(1, b"null")]);
    assert_eq!(r.command_context().state.node(1).unwrap().u64_at("v"), Some(7));
    assert_eq!(words(r.on_estop()), vec!["estop"]);
}

#[test]
fn runs_are_under_way_one_at_a_time() {
    let mut r = router();
    let mut runs = RunTable::new();
    let actions = r.on_strategy("square_pattern", b"{}");
    runs.enter(&actions);
    let first = match actions.last() {
        Some(RouterAction::Start(_, run, _)) => *run,
        other => panic!("{:?}", other),
    };
    assert_eq!(runs.start(first + 1), Starting::Never);
    assert_eq!(runs.start(first), Starting::Go);
    assert_eq!(runs.start(first), Starting::Never);
    let actions = r.on_strategy("point_turn", b"{}");
    runs.enter(&actions);
    let second = first + 1;
    assert_eq!(words(actions), vec![
        format!("cancel square_pattern {}", first),
        format!("start 1 {} None", second),
    ]);
    assert_eq!(runs.cancel(first), Cancelling::Interrupt);
    assert_eq!(runs.start(second), Starting::WaitFor(first));
    runs.end(second);
    assert_eq!(runs.start(second), Starting::WaitFor(first));
    runs.end(first);
    assert_eq!(runs.start(second), Starting::Go);
    assert_eq!(runs.cancel(first), Cancelling::Ended);
}

#[test]
fn a_run_cancelled_before_its_start_never_starts() {
    let mut r = router();
    let mut runs = RunTable::new();
    runs.enter(&r.on_strategy("square_pattern", b"{}"));
    let first = start(&mut r, "point_turn") - 1;
    runs.enter(&vec![RouterAction::Start(1, first + 1, parse_json(b"{}").unwrap())]);
    assert_eq!(runs.cancel(first), Cancelling::NeverStarts(None));
    assert_eq!(runs.start(first), Starting::Never);
    assert_eq!(runs.start(first + 1), Starting::Go);
    runs.enter(&vec![RouterAction::Start(0, first + 2, parse_json(b"{}").unwrap())]);
    assert_eq!(runs.cancel(first + 2), Cancelling::NeverStarts(Some(first + 1)));
    runs.end(first + 1);
    assert_eq!(runs.start(first + 2), Starting::Never);
    assert_eq!(runs.cancel(first + 2), Cancelling::Ended);
}
