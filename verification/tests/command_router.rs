use rove::command_router::api_client::{read_get_answer, read_post_answer, ApiClient, ApiError};
use rove::command_router::commands::drive::{DriveCommand, NodeCommand, NormalizedDriveCommand};
use rove::command_router::commands::estop::{ClearErrorsCommand, EstopCommand};
use rove::command_router::commands::{Command, CommandContext, NodeDriveState, Outgoing};
use rove::command_router::config::{
    ApiConfig, Config, DriveMode, EndpointConfig, RobotConfig, StrategyConfig,
};
use rove::command_router::robot_state::{NodeReply, RobotState};
use rove::command_router::strategies::point_turn::PointTurn;
use rove::command_router::strategies::square_pattern::SquarePattern;
use rove::command_router::strategies::{
    register_all, Cancelled, Outcome, Script, Strategy, StrategyAction, StrategyContext,
    StrategyRun,
};
use rove::json::{parse_json, Json};
use rove::scalar::Scalar;

const DISCOVERY: &[u8] = br#"{"sensors": [
    {"id": "odrive_3", "command_port": 6003, "data_port": 7003},
    {"id": "odrive_1", "command_port": 6001, "data_port": 7001},
    {"id": "vn300", "command_port": 1},
    {"id": "odrive_x"},
    {"id": "odrive_256"},
    {"id": "odrive_+7"},
    {"id": "odrive_3", "command_port": 71541}
]}"#;

fn single(x: f32) -> Scalar {
    Scalar::Single(x.to_bits())
}

fn double(x: f64) -> Scalar {
    Scalar::Double(x.to_bits())
}

fn config(mode: DriveMode) -> Config {
    Config {
        api: ApiConfig { host: "10.0.0.2".to_string(), http_port: 8080 },
        endpoints: EndpointConfig { estop_port: 9000, control_port: 9001 },
        strategies: StrategyConfig { base_port: 9010 },
        robot: RobotConfig {
            left_nodes: vec![1, 3],
            right_nodes: vec![7, 3, 7],
            drive_mode: mode,
            max_velocity: single(2.5),
            max_torque: single(0.75),
            command_interval_ms: 20,
        },
    }
}

fn client() -> ApiClient {
    let mut api = ApiClient::new("10.0.0.2", 8080);
    api.discover(DISCOVERY).unwrap();
    api
}

fn context(mode: DriveMode) -> CommandContext {
    CommandContext::new(&config(mode), client(), RobotState::new(100))
}

fn drives(sent: Vec<Outgoing>) -> Vec<NodeCommand> {
    sent.into_iter()
        .map(|o| match o {
            Outgoing::Drive(c) => c,
            Outgoing::Http(r) => panic!("unexpected request to {}", r.url),
        })
        .collect()
}

fn requests(sent: Vec<Outgoing>) -> Vec<(bool, String, Option<String>)> {
    sent.into_iter()
        .map(|o| match o {
            Outgoing::Http(r) => {
                (r.post, r.url, r.body.map(|b| String::from_utf8(b).unwrap()))
            }
            Outgoing::Drive(c) => panic!("unexpected command to {}", c.node_id),
        })
        .collect()
}

#[test]
fn all_nodes_puts_the_left_side_first() {
    assert_eq!(config(DriveMode::Velocity).all_nodes(), vec![1, 3, 7, 3, 7]);
}

#[test]
fn discovery_reads_drive_nodes() {
    let mut api = ApiClient::new("10.0.0.2", 8080);
    assert_eq!(api.discover_request().url, "http://10.0.0.2:8080/discover");
    assert!(!api.discover_request().post);
    let nodes = api.discover(DISCOVERY).unwrap();
    assert_eq!(nodes.len(), 3);
    assert_eq!(nodes[&1].command_port, 6001);
    assert_eq!(nodes[&1].data_port, 7001);
    assert_eq!(nodes[&3].node_id, 3);
    assert_eq!(nodes[&3].command_port, 6005);
    assert_eq!(nodes[&3].data_port, 0);
    assert_eq!(nodes[&7].command_port, 0);
    assert_eq!(api.node_ids(), vec![1, 3, 7]);
}

#[test]
fn discovery_refuses_bad_answers() {
    let mut api = client();
    assert_eq!(api.discover(b"no json").unwrap_err(), ApiError::NotJson);
    assert_eq!(api.discover(b"{}").unwrap_err(), ApiError::BadDiscovery);
    assert_eq!(api.discover(br#"{"sensors": 3}"#).unwrap_err(), ApiError::BadDiscovery);
    assert_eq!(api.node_ids(), vec![1, 3, 7]);
    assert!(api.discover(br#"{"sensors": []}"#).unwrap().is_empty());
    assert!(api.node_ids().is_empty());
}

#[test]
fn requests_name_the_node() {
    let api = client();
    let r = api.get_data(12);
    assert_eq!((r.post, r.url.as_str(), r.body), (false, "http://10.0.0.2:8080/odrive_12/data", None));
    let r = api.estop(255);
    assert_eq!((r.post, r.url.as_str(), r.body), (true, "http://10.0.0.2:8080/odrive_255/estop", None));
    let r = api.clear_errors(0);
    assert!(r.post);
    assert_eq!(r.url, "http://10.0.0.2:8080/odrive_0/command");
    assert_eq!(r.body.unwrap(), br#"{"clear_errors":true}"#.to_vec());
}

#[test]
fn answers_are_read() {
    assert!(read_get_answer(b"{").is_err());
    assert_eq!(read_get_answer(br#"{"a": 5}"#).unwrap().u64_at("a"), Some(5));
    assert!(read_post_answer(b"").is_null());
    assert_eq!(read_post_answer(br#"{"ok": true}"#).bool_at("ok"), Some(true));
}

#[test]
fn drive_packets_count_up_for_each_node() {
    let mut api = client();
    let first = api.send_drive_udp(1, b"{}").unwrap();
    assert_eq!(first.address, "10.0.0.2:6001");
    assert_eq!(first.bytes, vec![1, 0x10, 0, 0, b'{', b'}']);
    assert_eq!(api.send_drive_udp(1, b"x").unwrap().bytes, vec![1, 0x10, 1, 0, b'x']);
    assert_eq!(api.send_drive_udp(7, b"x").unwrap().bytes, vec![1, 0x10, 0, 0, b'x']);
    assert!(api.send_drive_udp(2, b"x").is_none());
    for _ in 2..65_535 {
        api.send_drive_udp(1, b"").unwrap();
    }
    assert_eq!(api.send_drive_udp(1, b"").unwrap().bytes, vec![1, 0x10, 0xFF, 0xFF]);
    assert_eq!(api.send_drive_udp(1, b"").unwrap().bytes, vec![1, 0x10, 0, 0]);
}

#[test]
fn first_drive_sets_up_each_node_once() {
    let mut ctx = context(DriveMode::Velocity);
    let cmd = DriveCommand { left: single(1.5), right: double(-2.0) };
    let sent = drives(cmd.execute(&mut ctx));
    let ids: Vec<u8> = sent.iter().map(|c| c.node_id).collect();
    assert_eq!(ids, vec![1, 3, 7, 3, 7]);
    for (i, c) in sent.iter().enumerate() {
        let first = i < 3;
        assert_eq!(c.axis_state, if first { Some(8) } else { None });
        assert_eq!(c.control_mode, if first { Some(2) } else { None });
        assert_eq!(c.input_mode, if first { Some(1) } else { None });
        assert_eq!(c.input_key(), "input_vel");
        let left = c.node_id != 7;
        assert_eq!(c.setpoint, if left { single(1.5) } else { double(2.0) });
    }
    let names: Vec<(&str, u32)> = sent[0].settings().iter().map(|s| (s.name, s.value)).collect();
    assert_eq!(names, vec![("axis_state", 8), ("control_mode", 2), ("input_mode", 1)]);
    let again = drives(cmd.execute(&mut ctx));
    assert!(again.iter().all(|c| c.settings().is_empty()));
    assert_eq!(ctx.node_drive_state[&7].control_mode, Some(2));
}

#[test]
fn changed_modes_are_sent_again() {
    let mut ctx = context(DriveMode::Torque);
    ctx.node_drive_state.insert(
        1,
        NodeDriveState { axis_state: Some(8), control_mode: Some(2), input_mode: Some(1) },
    );
    let sent = drives(DriveCommand { left: single(0.0), right: single(0.0) }.execute(&mut ctx));
    assert_eq!(sent[0].axis_state, None);
    assert_eq!(sent[0].control_mode, Some(1));
    assert_eq!(sent[0].input_mode, Some(1));
    assert_eq!(sent[0].input_key(), "input_torque");
    assert_eq!(sent[2].setpoint, single(-0.0));
}

#[test]
fn normalized_commands_scale_by_the_mode() {
    let cmd = NormalizedDriveCommand { left_norm: single(1.0), right_norm: single(1.0) };
    assert_eq!(cmd.scale(&context(DriveMode::Velocity)), single(2.5));
    assert_eq!(cmd.scale(&context(DriveMode::Torque)), single(0.75));
}

#[test]
fn stop_and_clear_reset_the_nodes() {
    let mut ctx = context(DriveMode::Velocity);
    let cmd = DriveCommand { left: single(1.0), right: single(1.0) };
    cmd.execute(&mut ctx);
    let stops = requests(EstopCommand.execute(&mut ctx));
    assert_eq!(
        stops,
        vec![
            (true, "http://10.0.0.2:8080/odrive_1/estop".to_string(), None),
            (true, "http://10.0.0.2:8080/odrive_3/estop".to_string(), None),
            (true, "http://10.0.0.2:8080/odrive_7/estop".to_string(), None),
        ]
    );
    assert!(ctx.node_drive_state.is_empty());
    assert_eq!(drives(cmd.execute(&mut ctx))[0].axis_state, Some(8));
    let clears = requests(ClearErrorsCommand.execute(&mut ctx));
    assert_eq!(clears.len(), 3);
    assert_eq!(clears[2].1, "http://10.0.0.2:8080/odrive_7/command");
    assert_eq!(clears[2].2.as_deref(), Some(r#"{"clear_errors":true}"#));
    assert!(ctx.node_drive_state.is_empty());
}

fn reply(node_id: u8, text: Option<&str>) -> NodeReply {
    NodeReply { node_id, data: text.map(|t| parse_json(t.as_bytes()).unwrap()) }
}

#[test]
fn polls_replace_the_snapshot() {
    let mut state = RobotState::new(100);
    assert_eq!(state.interval_ms(), 100);
    assert!(state.all().is_empty());
    state.poll_once(vec![reply(1, Some(r#"{"v": 1}"#)), reply(2, Some(r#"{"v": 2}"#))]);
    assert_eq!(state.all().len(), 2);
    state.poll_once(vec![reply(1, None), reply(2, Some("null"))]);
    assert_eq!(state.node(2).unwrap().u64_at("v"), Some(2));
    state.poll_once(vec![reply(3, Some("7")), reply(1, None)]);
    assert!(state.node(1).is_none());
    assert!(matches!(state.node(3), Some(Json::Number(n)) if n.unsigned == Some(7)));
    assert_eq!(state.all().len(), 1);
}

fn strategy_context(params: &str) -> StrategyContext {
    StrategyContext { params: parse_json(params.as_bytes()).unwrap() }
}

#[test]
fn params_fall_back_to_defaults() {
    let ctx = strategy_context(r#"{"speed": 0.1, "laps": 4294967298, "n": -1, "t": "x"}"#);
    assert_eq!(ctx.param_f32("speed", single(1.0)), double(0.1));
    assert_eq!(ctx.param_f32("t", single(1.0)), single(1.0));
    assert_eq!(ctx.param_u32("laps", 9), 2);
    assert_eq!(ctx.param_u32("n", 9), 9);
    assert_eq!(ctx.param_u32("missing", 9), 9);
}

#[test]
fn cancelled_strategies_do_not_drive() {
    let mut ctx = context(DriveMode::Velocity);
    let sctx = strategy_context("{}");
    assert_eq!(sctx.drive(&mut ctx, true, single(1.0), single(1.0)).unwrap_err(), Cancelled);
    assert!(ctx.node_drive_state.is_empty());
    assert_eq!(sctx.drive(&mut ctx, false, single(1.0), single(1.0)).unwrap().len(), 5);
    assert_eq!(drives(sctx.stop_drive(&mut ctx))[0].setpoint, single(0.0));
}

#[test]
fn strategies_are_registered_in_order() {
    let all = register_all();
    let names: Vec<&str> = all.iter().map(|s| s.name()).collect();
    assert_eq!(names, vec!["square_pattern", "point_turn"]);
    assert_eq!(all[1].description(), "Rotate in place — params: degrees, speed");
    assert_eq!(
        SquarePattern.description(),
        "Drive in a square — params: speed, side_seconds, turn_seconds, laps"
    );
}

#[test]
fn square_pattern_drives_four_sides() {
    let script = SquarePattern.script(&strategy_context(r#"{"speed": 2, "laps": 1}"#));
    let fast = double(2.0);
    let mut run = StrategyRun::new(script);
    for _ in 0..4 {
        assert_eq!(run.step(false, false), StrategyAction::Drive(fast, fast));
        assert_eq!(run.step(false, false), StrategyAction::Sleep(single(3.0)));
        assert_eq!(run.step(false, false), StrategyAction::Drive(fast, double(-2.0)));
        assert_eq!(run.step(false, false), StrategyAction::Sleep(single(1.0)));
    }
    assert_eq!(run.step(false, false), StrategyAction::StopDrive);
    assert_eq!(run.step(false, false), StrategyAction::Finish(Outcome::Completed));
    assert_eq!(run.step(true, true), StrategyAction::Finish(Outcome::Completed));
}

#[test]
fn square_pattern_without_laps_only_stops() {
    let mut run = StrategyRun::new(SquarePattern.script(&strategy_context(r#"{"laps": 0}"#)));
    assert_eq!(run.step(false, true), StrategyAction::StopDrive);
    assert_eq!(run.step(false, true), StrategyAction::Finish(Outcome::Completed));
}

#[test]
fn point_turn_turns_the_right_way() {
    let (degrees, speed) = PointTurn.params(&strategy_context(r#"{"degrees": -45}"#));
    assert_eq!((degrees, speed), (double(-45.0), single(1.0)));
    let (degrees, _) = PointTurn.params(&strategy_context("{}"));
    assert_eq!(degrees, single(90.0));
    assert_eq!(
        PointTurn.script(single(1.0), true, single(0.5)),
        Script::Turn { left: single(1.0), right: single(-1.0), seconds: single(0.5) }
    );
    assert_eq!(
        PointTurn.script(single(1.0), false, single(0.5)),
        Script::Turn { left: single(-1.0), right: single(1.0), seconds: single(0.5) }
    );
}

#[test]
fn interrupted_runs_end_as_cancelled() {
    let mut run = StrategyRun::new(PointTurn.script(single(1.0), true, single(0.5)));
    assert_eq!(run.step(false, false), StrategyAction::Drive(single(1.0), single(-1.0)));
    assert_eq!(run.step(false, true), StrategyAction::Sleep(single(0.5)));
    assert_eq!(run.step(true, true), StrategyAction::Finish(Outcome::Cancelled));
    assert_eq!(run.step(false, false), StrategyAction::Finish(Outcome::Cancelled));
    let mut run = StrategyRun::new(PointTurn.script(single(1.0), true, single(0.5)));
    assert_eq!(run.step(false, true), StrategyAction::Finish(Outcome::Cancelled));
}

#[test]
fn negation_is_its_own_inverse() {
    for x in [0.0f64, 1.0, -2.5, f64::INFINITY] {
        assert_eq!(double(x).negated(), double(-x));
        assert_eq!(double(x).negated().negated(), double(x));
    }
    assert_eq!(single(3.5).negated(), single(-3.5));
    assert_eq!(Scalar::zero(), single(0.0));
}
