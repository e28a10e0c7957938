//! The router: incoming packets are dispatched by the endpoint that received
//! them.
//!
//! - emergency stop: stop all drives, cancel any active strategy;
//! - control: the operator overrides, so cancel the strategy and forward the
//!   drive command;
//! - strategy endpoints: start and stop autonomy algorithms.
//!
//! The router decides. What it decides comes out as actions, which the program
//! performs in order.
use vstd::prelude::*;

use crate::command_router::api_client::{ApiClient, Datagram};
use crate::command_router::commands::drive::{DriveCommand, NormalizedDriveCommand};
use crate::command_router::commands::{Command, CommandContext, CommandContextView, Outgoing};
use crate::command_router::config::Config;
use crate::command_router::proto::RoveControl;
use crate::command_router::robot_state::{NodeReply, RobotState};
use crate::command_router::strategies::{register_all, RegisteredStrategy, Strategy};
use crate::json::{parse_json, Json, JsonTree, NotJson};
use crate::scalar::Scalar;
use crate::text::same_text;

verus! {

/// A drive command of an operator.
#[derive(Clone, Copy, Debug, PartialEq, Eq, Structural)]
pub enum ControlCommand {
    /// Set points of -1 to 1.
    Normalized(NormalizedDriveCommand),
    /// Absolute set points.
    Absolute(DriveCommand),
}

/// What the program is to do.
#[derive(Debug)]
pub enum RouterAction {
    /// Cancel the run with this number, of the strategy of this name, and wait
    /// until it has ended. A run that is not yet started is not to start any
    /// more.
    CancelActive(String, u64),
    /// Execute an emergency stop.
    Estop,
    /// Execute a clearing of errors.
    ClearErrors,
    /// Execute a drive command.
    Drive(ControlCommand),
    /// Start the strategy in this place of the list as the run with this number,
    /// with these parameters.
    Start(usize, u64, Json),
}

/// The mathematical content of an action.
pub enum ActionView {
    CancelActive(Seq<char>, u64),
    Estop,
    ClearErrors,
    Drive(ControlCommand),
    Start(usize, u64, JsonTree),
}

impl View for RouterAction {
    type V = ActionView;

    open spec fn view(&self) -> ActionView {
        match self {
            RouterAction::CancelActive(name, run) => ActionView::CancelActive(name@, *run),
            RouterAction::Estop => ActionView::Estop,
            RouterAction::ClearErrors => ActionView::ClearErrors,
            RouterAction::Drive(c) => ActionView::Drive(*c),
            RouterAction::Start(i, run, params) => ActionView::Start(*i, *run, params@),
        }
    }
}

/// The contents of actions.
pub open spec fn action_views(actions: Seq<RouterAction>) -> Seq<ActionView> {
    Seq::new(actions.len(), |i: int| actions[i]@)
}

/// A run of a strategy, from the decision to start it to its end.
struct ActiveStrategy {
    name: String,
    run: u64,
}

/// The mathematical content of a run.
pub struct ActiveView {
    pub name: Seq<char>,
    pub run: u64,
}

/// What the router decides upon.
pub struct CommandRouter {
    cmd_ctx: CommandContext,
    active: Option<ActiveStrategy>,
    next_run: u64,
    estopped: bool,
    strategies: Vec<RegisteredStrategy>,
    estop_port: u16,
    control_port: u16,
    strategy_base_port: u16,
}

/// The mathematical content of a router, besides its command context.
pub struct RouterView {
    /// The running strategy. It counts as running from the decision to start it.
    pub active: Option<ActiveView>,
    /// The number of the next run.
    pub next_run: u64,
    pub estopped: bool,
    pub strategies: Seq<RegisteredStrategy>,
    pub estop_port: u16,
    pub control_port: u16,
    pub strategy_base_port: u16,
}

impl View for CommandRouter {
    type V = RouterView;

    closed spec fn view(&self) -> RouterView {
        RouterView {
            active: match self.active {
                Some(a) => Some(ActiveView { name: a.name@, run: a.run }),
                None => None,
            },
            next_run: self.next_run,
            estopped: self.estopped,
            strategies: self.strategies@,
            estop_port: self.estop_port,
            control_port: self.control_port,
            strategy_base_port: self.strategy_base_port,
        }
    }
}

impl RouterView {
    /// The names of the strategies.
    pub open spec fn names(self) -> Seq<Seq<char>> {
        Seq::new(self.strategies.len(), |i: int| self.strategies[i].spec_name())
    }

    /// What cancels the running strategy, where there is one.
    pub open spec fn cancel(self) -> Seq<ActionView> {
        match self.active {
            Some(a) => seq![ActionView::CancelActive(a.name, a.run)],
            None => Seq::empty(),
        }
    }

    /// The router without a running strategy.
    pub open spec fn idle(self) -> RouterView {
        RouterView { active: None, ..self }
    }

    /// Whether the strategy `name` is the running one.
    pub open spec fn runs(self, name: Seq<char>) -> bool {
        self.active is Some && self.active->0.name == name
    }

    /// The number of the run behind the next one, around the end of its range.
    pub open spec fn run_after(self) -> u64 {
        if self.next_run == u64::MAX {
            0
        } else {
            (self.next_run + 1) as u64
        }
    }

    /// A running strategy is one of the list, and none runs while the router is
    /// stopped.
    pub open spec fn well_formed(self) -> bool {
        &&& self.active is Some ==> self.names().contains(self.active->0.name)
        &&& self.estopped ==> self.active is None
    }
}

/// The drive command that a document asks for.
pub open spec fn control_in(document: JsonTree) -> Option<ControlCommand> {
    if document.double_at("left_vel"@) is Some && document.double_at("right_vel"@) is Some {
        Some(
            ControlCommand::Normalized(
                NormalizedDriveCommand {
                    left_norm: Scalar::Double(document.double_at("left_vel"@)->0),
                    right_norm: Scalar::Double(document.double_at("right_vel"@)->0),
                },
            ),
        )
    } else if document.double_at("left"@) is Some && document.double_at("right"@) is Some {
        Some(
            ControlCommand::Absolute(
                DriveCommand {
                    left: Scalar::Double(document.double_at("left"@)->0),
                    right: Scalar::Double(document.double_at("right"@)->0),
                },
            ),
        )
    } else {
        None
    }
}

/// The drive command of an optional document.
pub open spec fn control_in_json(document: Option<JsonTree>) -> Option<ControlCommand> {
    match document {
        Some(d) => control_in(d),
        None => None,
    }
}

/// The drive command that a `RoveControl` message asks for.
pub open spec fn control_in_message(message: Option<RoveControl>) -> Option<ControlCommand> {
    match message {
        Some(m) => match m.tracks {
            Some(tracks) => Some(
                ControlCommand::Normalized(
                    NormalizedDriveCommand {
                        left_norm: Scalar::Single(tracks.left_vel),
                        right_norm: Scalar::Single(tracks.right_vel),
                    },
                ),
            ),
            None => None,
        },
        None => None,
    }
}

/// The drive command of a control packet, where `document` is the JSON document
/// that it holds: JSON for what starts with a brace, else a message with tracks,
/// else JSON after all.
pub open spec fn control_packet(data: Seq<u8>, document: Option<JsonTree>) -> Option<
    ControlCommand,
> {
    let message = control_in_message(crate::command_router::proto::rove_control(data));
    if (data.len() > 0 && data[0] == 0x7B) || message is None {
        control_in_json(document)
    } else {
        message
    }
}

/// An emergency stop.
pub open spec fn estop_step(r: RouterView) -> (RouterView, Seq<ActionView>) {
    (RouterView { estopped: true, ..r.idle() }, r.cancel().push(ActionView::Estop))
}

/// A control packet with the document and the command that it holds. A stopped
/// router takes nothing but the request to clear errors.
pub open spec fn control_step(
    r: RouterView,
    document: Option<JsonTree>,
    command: Option<ControlCommand>,
) -> (RouterView, Seq<ActionView>) {
    if r.estopped {
        if document is Some && document->0.bool_at("clear_errors"@) == Some(true) {
            (RouterView { estopped: false, ..r }, seq![ActionView::ClearErrors])
        } else {
            (r, Seq::empty())
        }
    } else {
        match command {
            Some(c) => (r.idle(), r.cancel().push(ActionView::Drive(c))),
            None => (r.idle(), r.cancel()),
        }
    }
}

/// What a strategy packet asks for; to start, where it does not say.
pub open spec fn requested_action(document: JsonTree) -> Seq<char> {
    match document.text_at("action"@) {
        Some(a) => a,
        None => "start"@,
    }
}

/// The parameters of a strategy packet; none, where it does not say.
pub open spec fn requested_params(document: JsonTree) -> JsonTree {
    match document.get("params"@) {
        Some(p) => p,
        None => JsonTree::empty_object(),
    }
}

/// A packet on the endpoint of the strategy `name`.
pub open spec fn strategy_step(r: RouterView, name: Seq<char>, document: Option<JsonTree>) -> (
    RouterView,
    Seq<ActionView>,
) {
    if r.estopped || document is None {
        (r, Seq::empty())
    } else {
        let action = requested_action(document->0);
        if action == "stop"@ {
            if r.runs(name) {
                (r.idle(), r.cancel())
            } else {
                (r, Seq::empty())
            }
        } else if action == "start"@ {
            if r.names().contains(name) {
                (
                    RouterView {
                        active: Some(ActiveView { name, run: r.next_run }),
                        next_run: r.run_after(),
                        ..r
                    },
                    r.cancel().push(
                        ActionView::Start(
                            r.names().index_of_first(name)->0 as usize,
                            r.next_run,
                            requested_params(document->0),
                        ),
                    ),
                )
            } else {
                (r.idle(), r.cancel())
            }
        } else {
            (r, Seq::empty())
        }
    }
}

/// The end of a run.
pub open spec fn exit_step(r: RouterView, run: u64) -> RouterView {
    if r.active is Some && r.active->0.run == run {
        r.idle()
    } else {
        r
    }
}

/// Reads the drive command in a document.
pub fn read_json_control(document: &Json) -> (r: Option<ControlCommand>)
    ensures
        r == control_in(document@),
{
    if let (Some(l), Some(r)) = (document.double_at("left_vel"), document.double_at("right_vel")) {
        return Some(
            ControlCommand::Normalized(
                NormalizedDriveCommand {
                    left_norm: Scalar::Double(l),
                    right_norm: Scalar::Double(r),
                },
            ),
        );
    }
    if let (Some(l), Some(r)) = (document.double_at("left"), document.double_at("right")) {
        return Some(
            ControlCommand::Absolute(
                DriveCommand { left: Scalar::Double(l), right: Scalar::Double(r) },
            ),
        );
    }
    None
}

/// Reads the drive command in a JSON text.
pub fn parse_json_control(data: &[u8]) -> (r: Option<ControlCommand>)
    ensures
        r == control_in_json(crate::json::json_document(data@)),
{
    match parse_json(data) {
        Ok(document) => read_json_control(&document),
        Err(_) => None,
    }
}

/// Reads the drive command in a control packet.
pub fn parse_control(data: &[u8]) -> (r: Option<ControlCommand>)
    ensures
        r == control_packet(data@, crate::json::json_document(data@)),
{
    if data.len() > 0 && data[0] == 0x7B {
        return parse_json_control(data);
    }
    match RoveControl::decode(data) {
        Some(message) => match message.tracks {
            Some(tracks) => {
                return Some(
                    ControlCommand::Normalized(
                        NormalizedDriveCommand {
                            left_norm: Scalar::Single(tracks.left_vel),
                            right_norm: Scalar::Single(tracks.right_vel),
                        },
                    ),
                );
            },
            None => {},
        },
        None => {},
    }
    parse_json_control(data)
}

/// What listens on a port.
#[derive(Clone, Copy, Debug, PartialEq, Eq, Structural)]
pub enum EndpointKind {
    Estop,
    Control,
    /// The strategy in this place of the list.
    Strategy(usize),
}

/// A UDP endpoint of the router.
#[derive(Clone, Copy, Debug, PartialEq, Eq, Structural)]
pub struct Endpoint {
    pub port: u16,
    pub kind: EndpointKind,
}

impl RouterView {
    /// The ports of the strategies exist.
    pub open spec fn ports_fit(self) -> bool {
        self.strategy_base_port + self.strategies.len() <= 0x1_0000
    }

    /// The endpoints: emergency stop, control, and one port behind the other
    /// the strategies.
    pub open spec fn endpoints(self) -> Seq<Endpoint> {
        seq![
            Endpoint { port: self.estop_port, kind: EndpointKind::Estop },
            Endpoint { port: self.control_port, kind: EndpointKind::Control },
        ] + Seq::new(
            self.strategies.len(),
            |i: int|
                Endpoint {
                    port: (self.strategy_base_port + i) as u16,
                    kind: EndpointKind::Strategy(i as usize),
                },
        )
    }
}

impl CommandRouter {
    /// What the router's commands work on.
    pub closed spec fn context(&self) -> CommandContextView {
        self.cmd_ctx@
    }

    /// A router with all strategies, none of them running, that is not stopped.
    pub fn new(config: &Config, api: ApiClient, state: RobotState) -> (r: CommandRouter)
        ensures
            r@ == (RouterView {
                active: None,
                next_run: 0,
                estopped: false,
                strategies: crate::command_router::strategies::registered(),
                estop_port: config.endpoints.estop_port,
                control_port: config.endpoints.control_port,
                strategy_base_port: config.strategies.base_port,
            }),
            r@.well_formed(),
            r.context() == (CommandContextView {
                api: api@,
                state: state@,
                poll_ms: state.period_ms(),
                left_nodes: config.robot.left_nodes@,
                right_nodes: config.robot.right_nodes@,
                drive_mode: config.robot.drive_mode,
                max_velocity: config.robot.max_velocity,
                max_torque: config.robot.max_torque,
                node_drive_state: Map::empty(),
            }),
    {
        CommandRouter {
            cmd_ctx: CommandContext::new(config, api, state),
            active: None,
            next_run: 0,
            estopped: false,
            strategies: register_all(),
            estop_port: config.endpoints.estop_port,
            control_port: config.endpoints.control_port,
            strategy_base_port: config.strategies.base_port,
        }
    }

    /// The endpoints to listen on.
    pub fn endpoints(&self) -> (r: Vec<Endpoint>)
        requires
            self@.ports_fit(),
        ensures
            r@ == self@.endpoints(),
    {
        let mut out: Vec<Endpoint> = Vec::new();
        out.push(Endpoint { port: self.estop_port, kind: EndpointKind::Estop });
        out.push(Endpoint { port: self.control_port, kind: EndpointKind::Control });
        for i in 0..self.strategies.len()
            invariant
                self@.ports_fit(),
                out@ =~= self@.endpoints().take(i + 2),
        {
            out.push(
                Endpoint {
                    port: (self.strategy_base_port as u32 + i as u32) as u16,
                    kind: EndpointKind::Strategy(i),
                },
            );
        }
        assert(out@ =~= self@.endpoints());
        out
    }

    /// The strategy in place `i` of the list.
    pub fn strategy(&self, i: usize) -> (r: Option<RegisteredStrategy>)
        ensures
            r == (if i < self@.strategies.len() {
                Some(self@.strategies[i as int])
            } else {
                None
            }),
    {
        if i < self.strategies.len() {
            Some(self.strategies[i])
        } else {
            None
        }
    }

    /// Whether the router is stopped.
    pub fn is_estopped(&self) -> (r: bool)
        ensures
            r == self@.estopped,
    {
        self.estopped
    }

    /// What the router's commands work on.
    pub fn command_context(&self) -> (r: &CommandContext)
        ensures
            r@ == self.context(),
    {
        &self.cmd_ctx
    }

    /// The packet that carries a drive command to a node.
    pub fn send_drive_udp(&mut self, node_id: u8, payload: &[u8]) -> (r: Option<Datagram>)
        ensures
            final(self)@ == old(self)@,
            crate::command_router::api_client::is_drive_packet(
                old(self).context().api,
                final(self).context().api,
                node_id,
                payload@,
                r,
            ),
            final(self).context() == (CommandContextView {
                api: final(self).context().api,
                ..old(self).context()
            }),
    {
        self.cmd_ctx.api.send_drive_udp(node_id, payload)
    }

    /// Takes over the replies of one poll of the nodes.
    pub fn poll_once(&mut self, replies: Vec<NodeReply>)
        ensures
            final(self)@ == old(self)@,
            final(self).context() == (CommandContextView {
                state: crate::command_router::robot_state::polled(
                    old(self).context().state,
                    replies@,
                ),
                ..old(self).context()
            }),
    {
        self.cmd_ctx.state.poll_once(replies);
    }

    /// Executes a command, which leaves the router's own state alone.
    pub fn execute<C: Command>(&mut self, command: &C) -> (sent: Vec<Outgoing>)
        ensures
            final(self)@ == old(self)@,
            command.effect(old(self).context(), final(self).context(), sent@),
    {
        command.execute(&mut self.cmd_ctx)
    }

    /// Takes the running strategy out, and hands out the action that cancels it.
    fn cancel_active(&mut self) -> (r: Vec<RouterAction>)
        ensures
            final(self)@ == old(self)@.idle(),
            final(self).context() == old(self).context(),
            action_views(r@) == old(self)@.cancel(),
    {
        let mut out: Vec<RouterAction> = Vec::new();
        let active = self.active.take();
        match active {
            Some(a) => {
                out.push(RouterAction::CancelActive(a.name, a.run));
            },
            None => {},
        }
        assert(action_views(out@) =~= old(self)@.cancel());
        out
    }

    /// Handles a packet on the emergency stop endpoint, whatever it holds.
    pub fn on_estop(&mut self) -> (r: Vec<RouterAction>)
        ensures
            (final(self)@, action_views(r@)) == estop_step(old(self)@),
            final(self).context() == old(self).context(),
    {
        self.estopped = true;
        let mut out = self.cancel_active();
        let ghost cancels = out@;
        out.push(RouterAction::Estop);
        assert(action_views(out@) =~= action_views(cancels).push(ActionView::Estop));
        out
    }

    /// Handles a control packet whose document and command are known.
    pub fn handle_control(
        &mut self,
        document: &Result<Json, NotJson>,
        command: Option<ControlCommand>,
    ) -> (r: Vec<RouterAction>)
        ensures
            (final(self)@, action_views(r@)) == control_step(
                old(self)@,
                match document {
                    Ok(j) => Some(j@),
                    Err(_) => None,
                },
                command,
            ),
            final(self).context() == old(self).context(),
    {
        if self.estopped {
            let mut out: Vec<RouterAction> = Vec::new();
            match document {
                Ok(j) => {
                    if j.bool_at("clear_errors") == Some(true) {
                        self.estopped = false;
                        out.push(RouterAction::ClearErrors);
                        assert(action_views(out@) =~= seq![ActionView::ClearErrors]);
                        return out;
                    }
                },
                Err(_) => {},
            }
            assert(action_views(out@) =~= Seq::<ActionView>::empty());
            return out;
        }
        let mut out = self.cancel_active();
        let ghost cancels = out@;
        match command {
            Some(c) => {
                out.push(RouterAction::Drive(c));
                assert(action_views(out@) =~= action_views(cancels).push(ActionView::Drive(c)));
            },
            None => {},
        }
        out
    }

    /// Handles a control packet.
    pub fn on_control(&mut self, data: &[u8]) -> (r: Vec<RouterAction>)
        ensures
            (final(self)@, action_views(r@)) == control_step(
                old(self)@,
                crate::json::json_document(data@),
                control_packet(data@, crate::json::json_document(data@)),
            ),
            final(self).context() == old(self).context(),
    {
        let document = parse_json(data);
        let command = parse_control(data);
        self.handle_control(&document, command)
    }

    /// The place of the strategy `name` in the list.
    fn find_strategy(&self, name: &str) -> (r: Option<usize>)
        ensures
            match r {
                Some(i) => self@.names().contains(name@) && i == self@.names().index_of_first(
                    name@,
                )->0 && i < self@.strategies.len(),
                None => !self@.names().contains(name@),
            },
    {
        let ghost names = self@.names();
        for i in 0..self.strategies.len()
            invariant
                names == self@.names(),
                forall|j: int| 0 <= j < i ==> #[trigger] names[j] != name@,
        {
            assert(names[i as int] == self.strategies@[i as int].spec_name());
            if same_text(self.strategies[i].name(), name) {
                proof {
                    names.index_of_first_ensures(name@);
                    let k = names.index_of_first(name@)->0;
                    assert(names[k] == name@);
                    assert(k == i as int);
                }
                return Some(i);
            }
        }
        None
    }

    /// Handles a packet on the endpoint of the strategy `name` whose document is
    /// known.
    pub fn handle_strategy(&mut self, name: &str, document: &Result<Json, NotJson>) -> (r: Vec<
        RouterAction,
    >)
        ensures
            (final(self)@, action_views(r@)) == strategy_step(
                old(self)@,
                name@,
                match document {
                    Ok(j) => Some(j@),
                    Err(_) => None,
                },
            ),
            final(self).context() == old(self).context(),
    {
        let nothing: Vec<RouterAction> = Vec::new();
        assert(action_views(nothing@) =~= Seq::<ActionView>::empty());
        if self.estopped {
            return nothing;
        }
        let msg = match document {
            Ok(j) => j,
            Err(_) => return nothing,
        };
        let action = match msg.text_at("action") {
            Some(a) => a,
            None => "start",
        };
        if same_text(action, "stop") {
            let is_active = match &self.active {
                Some(active) => same_text(active.name.as_str(), name),
                None => false,
            };
            if is_active {
                self.cancel_active()
            } else {
                nothing
            }
        } else if same_text(action, "start") {
            let mut out = self.cancel_active();
            let ghost cancels = out@;
            match self.find_strategy(name) {
                Some(i) => {
                    let params = match msg.get("params") {
                        Some(p) => p.copy(),
                        None => {
                            let p = Json::Object(Vec::new());
                            assert(p@->Object_0 =~= Seq::<Seq<char>>::empty());
                            assert(p@->Object_1 =~= Seq::<JsonTree>::empty());
                            p
                        },
                    };
                    let ghost tree = params@;
                    let run = self.next_run;
                    self.next_run = if run == u64::MAX {
                        0
                    } else {
                        run + 1
                    };
                    self.active = Some(ActiveStrategy { name: name.to_owned(), run });
                    out.push(RouterAction::Start(i, run, params));
                    assert(action_views(out@) =~= action_views(cancels).push(
                        ActionView::Start(i, run, tree),
                    ));
                },
                None => {},
            }
            out
        } else {
            nothing
        }
    }

    /// Handles a packet on the endpoint of the strategy `name`.
    pub fn on_strategy(&mut self, name: &str, data: &[u8]) -> (r: Vec<RouterAction>)
        ensures
            (final(self)@, action_views(r@)) == strategy_step(
                old(self)@,
                name@,
                crate::json::json_document(data@),
            ),
            final(self).context() == old(self).context(),
    {
        let document = parse_json(data);
        self.handle_strategy(name, &document)
    }

    /// Handles the end of a run: the drives are zeroed, and the run is no longer
    /// the running one.
    pub fn on_strategy_exit(&mut self, run: u64) -> (sent: Vec<Outgoing>)
        ensures
            final(self)@ == exit_step(old(self)@, run),
            crate::command_router::strategies::stop_command().effect(
                old(self).context(),
                final(self).context(),
                sent@,
            ),
    {
        let sent = (DriveCommand { left: Scalar::zero(), right: Scalar::zero() }).execute(
            &mut self.cmd_ctx,
        );
        let is_active = match &self.active {
            Some(active) => active.run == run,
            None => false,
        };
        if is_active {
            self.active = None;
        }
        sent
    }
}

/// While the router is stopped, no packet makes the robot move: control packets
/// bring at most a clearing of errors, strategy packets nothing.
pub proof fn stopped_routers_do_not_move(
    r: RouterView,
    name: Seq<char>,
    document: Option<JsonTree>,
    command: Option<ControlCommand>,
)
    requires
        r.estopped,
    ensures
        control_step(r, document, command).1 == Seq::<ActionView>::empty() || control_step(
            r,
            document,
            command,
        ).1 == seq![ActionView::ClearErrors],
        strategy_step(r, name, document) == (r, Seq::<ActionView>::empty()),
{
}

/// What happens to a router.
pub enum RouterEvent {
    /// A packet on the emergency stop endpoint.
    Estop,
    /// A control packet with its document and its command.
    Control(Option<JsonTree>, Option<ControlCommand>),
    /// A packet on the endpoint of a strategy, with its document.
    Strategy(Seq<char>, Option<JsonTree>),
    /// The end of the run with this number.
    Exit(u64),
}

impl RouterEvent {
    /// Whether the event asks to clear errors.
    pub open spec fn clears_errors(self) -> bool {
        match self {
            RouterEvent::Control(document, _) => document is Some && document->0.bool_at(
                "clear_errors"@,
            ) == Some(true),
            _ => false,
        }
    }
}

/// What an event does.
pub open spec fn event_step(r: RouterView, event: RouterEvent) -> (RouterView, Seq<ActionView>) {
    match event {
        RouterEvent::Estop => estop_step(r),
        RouterEvent::Control(document, command) => control_step(r, document, command),
        RouterEvent::Strategy(name, document) => strategy_step(r, name, document),
        RouterEvent::Exit(run) => (exit_step(r, run), Seq::empty()),
    }
}

/// What events do, one after the other.
pub open spec fn events_step(r: RouterView, events: Seq<RouterEvent>) -> (
    RouterView,
    Seq<ActionView>,
)
    decreases events.len(),
{
    if events.len() == 0 {
        (r, Seq::empty())
    } else {
        let (before, actions) = events_step(r, events.drop_last());
        let (after, more) = event_step(before, events.last());
        (after, actions + more)
    }
}

/// A stopped router stays stopped and sets nothing in motion, whatever arrives,
/// until a packet asks to clear errors.
pub proof fn stops_last_until_errors_are_cleared(r: RouterView, events: Seq<RouterEvent>)
    requires
        r.estopped,
        forall|i: int| 0 <= i < events.len() ==> !(#[trigger] events[i]).clears_errors(),
    ensures
        events_step(r, events).0.estopped,
        forall|i: int|
            0 <= i < events_step(r, events).1.len() ==> (#[trigger] events_step(r, events).1[i]
                is Estop || events_step(r, events).1[i] is CancelActive),
    decreases events.len(),
{
    if events.len() > 0 {
        assert(forall|i: int|
            0 <= i < events.drop_last().len() ==> #[trigger] events.drop_last()[i] == events[i]);
        stops_last_until_errors_are_cleared(r, events.drop_last());
        let (before, actions) = events_step(r, events.drop_last());
        let (after, more) = event_step(before, events.last());
        assert(!events[events.len() - 1].clears_errors());
        assert forall|i: int| 0 <= i < (actions + more).len() implies (#[trigger] (actions
            + more)[i] is Estop || (actions + more)[i] is CancelActive) by {
            if i < actions.len() {
                assert((actions + more)[i] == actions[i]);
            } else {
                assert((actions + more)[i] == more[i - actions.len()]);
            }
        }
    }
}

/// Nothing but a control packet that asks to clear errors ends an emergency
/// stop.
pub proof fn only_clearing_errors_ends_a_stop(
    r: RouterView,
    name: Seq<char>,
    document: Option<JsonTree>,
    command: Option<ControlCommand>,
    run: u64,
)
    requires
        r.estopped,
    ensures
        control_step(r, document, command).0.estopped <==> !(document is Some
            && document->0.bool_at("clear_errors"@) == Some(true)),
        strategy_step(r, name, document).0.estopped,
        estop_step(r).0.estopped,
        exit_step(r, run).estopped,
{
}

/// An emergency stop cancels the running strategy before it stops the drives,
/// and leaves the router stopped and idle.
pub proof fn estop_stops_everything(r: RouterView)
    ensures
        estop_step(r).0.estopped,
        estop_step(r).0.active is None,
        estop_step(r).1.last() == ActionView::Estop,
        r.active is Some ==> estop_step(r).1 == seq![
            ActionView::CancelActive(r.active->0.name, r.active->0.run),
            ActionView::Estop,
        ],
{
    if r.active is Some {
        assert(estop_step(r).1 =~= seq![
            ActionView::CancelActive(r.active->0.name, r.active->0.run),
            ActionView::Estop,
        ]);
    }
}

/// A control packet that comes through takes over from the running strategy,
/// even if it holds no command.
pub proof fn operators_override_strategies(
    r: RouterView,
    document: Option<JsonTree>,
    command: Option<ControlCommand>,
)
    requires
        !r.estopped,
    ensures
        control_step(r, document, command).0.active is None,
        r.active is Some ==> control_step(r, document, command).1[0] == ActionView::CancelActive(
            r.active->0.name,
            r.active->0.run,
        ),
        command is Some ==> control_step(r, document, command).1.last() == ActionView::Drive(
            command->0,
        ),
{
}

/// A strategy starts only once the one that runs is cancelled, and is then the
/// running one.
pub proof fn one_strategy_runs_at_a_time(
    r: RouterView,
    name: Seq<char>,
    document: Option<JsonTree>,
    i: int,
)
    requires
        0 <= i < strategy_step(r, name, document).1.len(),
        strategy_step(r, name, document).1[i] is Start,
    ensures
        i == r.cancel().len(),
        strategy_step(r, name, document).1.take(i) == r.cancel(),
        strategy_step(r, name, document).0.active == Some(
            ActiveView { name, run: strategy_step(r, name, document).1[i]->Start_1 },
        ),
        r.strategies.len() <= usize::MAX
            ==> r.names()[strategy_step(r, name, document).1[i]->Start_0 as int] == name,
{
    assert(strategy_step(r, name, document).1.take(i) =~= r.cancel());
    r.names().index_of_first_ensures(name);
}

/// Whatever happens, a running strategy is one of the list, and a stopped router
/// has none running.
pub proof fn running_strategies_are_registered(r: RouterView, events: Seq<RouterEvent>)
    requires
        r.well_formed(),
    ensures
        events_step(r, events).0.well_formed(),
        events_step(r, events).0.strategies == r.strategies,
    decreases events.len(),
{
    if events.len() > 0 {
        running_strategies_are_registered(r, events.drop_last());
        let before = events_step(r, events.drop_last()).0;
        assert(event_step(before, events.last()).0.names() == before.names());
    }
}

/// The runs that are under way once actions are performed: a start adds its run,
/// a cancel takes its run away.
pub open spec fn live_after(live: Set<u64>, actions: Seq<ActionView>) -> Set<u64>
    decreases actions.len(),
{
    if actions.len() == 0 {
        live
    } else {
        let before = live_after(live, actions.drop_last());
        match actions.last() {
            ActionView::Start(_, run, _) => before.insert(run),
            ActionView::CancelActive(_, run) => before.remove(run),
            _ => before,
        }
    }
}

/// The runs that are under way after events: those that were decided upon and
/// were neither cancelled nor have ended.
pub open spec fn live_runs(r: RouterView, events: Seq<RouterEvent>) -> Set<u64>
    decreases events.len(),
{
    if events.len() == 0 {
        Set::empty()
    } else {
        let before = live_runs(r, events.drop_last());
        let state = events_step(r, events.drop_last()).0;
        let live = live_after(before, event_step(state, events.last()).1);
        match events.last() {
            RouterEvent::Exit(run) => live.remove(run),
            _ => live,
        }
    }
}

/// The run of the running strategy.
pub open spec fn active_run(r: RouterView) -> Set<u64> {
    match r.active {
        Some(a) => set![a.run],
        None => Set::empty(),
    }
}

/// At most one run is under way, whatever happens in whatever order: the one that
/// the router takes for running. Every other start was answered by a cancel or
/// has ended.
pub proof fn at_most_one_run_is_under_way(r: RouterView, events: Seq<RouterEvent>)
    requires
        r.active is None,
    ensures
        live_runs(r, events) == active_run(events_step(r, events).0),
    decreases events.len(),
{
    if events.len() > 0 {
        at_most_one_run_is_under_way(r, events.drop_last());
        let live = live_runs(r, events.drop_last());
        let state = events_step(r, events.drop_last()).0;
        let (after, actions) = event_step(state, events.last());
        lemma_cancel_ends_the_run(state);
        if actions.len() > 0 && actions != state.cancel() {
            assert(actions.drop_last() =~= state.cancel() || actions.drop_last() =~= Seq::empty());
        }
        reveal_with_fuel(live_after, 2);
        assert(live_runs(r, events) =~= active_run(after));
    }
}

proof fn lemma_cancel_ends_the_run(r: RouterView)
    ensures
        live_after(active_run(r), r.cancel()) == Set::<u64>::empty(),
{
    reveal_with_fuel(live_after, 2);
    assert(live_after(active_run(r), r.cancel()) =~= Set::<u64>::empty());
}

/// While the router is stopped, nothing is under way, whatever happened before.
pub proof fn stopped_routers_have_nothing_under_way(r: RouterView, events: Seq<RouterEvent>)
    requires
        r.active is None,
        r.well_formed(),
        events_step(r, events).0.estopped,
    ensures
        live_runs(r, events) == Set::<u64>::empty(),
{
    running_strategies_are_registered(r, events);
    at_most_one_run_is_under_way(r, events);
}

/// Every strategy has a port of its own, in the order of the list.
pub proof fn strategy_ports_are_distinct(r: RouterView, i: int, j: int)
    requires
        r.ports_fit(),
        0 <= i < j < r.strategies.len(),
    ensures
        r.endpoints()[i + 2].port == r.strategy_base_port + i,
        r.endpoints()[i + 2].port < r.endpoints()[j + 2].port,
{
}

/// An emergency stop takes effect whatever the router does: it is stopped and has
/// nothing running, and the drives are stopped, behind the strategy that ran.
pub proof fn emergency_stops_take_effect_at_once(r: RouterView)
    ensures
        estop_step(r).0 == (RouterView { estopped: true, active: None, ..r }),
        r.active is None ==> estop_step(r).1 == seq![ActionView::Estop],
        r.active matches Some(a) ==> estop_step(r).1 == seq![
            ActionView::CancelActive(a.name, a.run),
            ActionView::Estop,
        ],
{
    assert(r.cancel().push(ActionView::Estop) =~= match r.active {
        Some(a) => seq![ActionView::CancelActive(a.name, a.run), ActionView::Estop],
        None => seq![ActionView::Estop],
    });
}

/// Unless the router is stopped, a control packet with a command drives with that
/// command, at once or behind the strategy that ran; one without a command ends
/// that strategy all the same. Afterwards nothing is running.
pub proof fn control_packets_drive(
    r: RouterView,
    document: Option<JsonTree>,
    command: ControlCommand,
)
    requires
        !r.estopped,
    ensures
        control_step(r, document, Some(command)).0 == (RouterView { active: None, ..r }),
        control_step(r, document, None).0 == (RouterView { active: None, ..r }),
        match r.active {
            Some(a) => {
                &&& control_step(r, document, Some(command)).1 == seq![
                    ActionView::CancelActive(a.name, a.run),
                    ActionView::Drive(command),
                ]
                &&& control_step(r, document, None).1 == seq![
                    ActionView::CancelActive(a.name, a.run),
                ]
            },
            None => {
                &&& control_step(r, document, Some(command)).1 == seq![ActionView::Drive(command)]
                &&& control_step(r, document, None).1.len() == 0
            },
        },
{
    assert(r.cancel().push(ActionView::Drive(command)) =~= match r.active {
        Some(a) => seq![ActionView::CancelActive(a.name, a.run), ActionView::Drive(command)],
        None => seq![ActionView::Drive(command)],
    });
}

/// A stopped router takes one thing only: a document in which `clear_errors` is
/// true clears the errors and ends the stop, whatever command the packet holds.
pub proof fn stopped_routers_only_clear_errors(
    r: RouterView,
    document: JsonTree,
    command: Option<ControlCommand>,
)
    requires
        r.estopped,
    ensures
        document.get("clear_errors"@) == Some(JsonTree::Bool(true)) ==> control_step(
            r,
            Some(document),
            command,
        ) == (RouterView { estopped: false, ..r }, seq![ActionView::ClearErrors]),
        document.get("clear_errors"@) != Some(JsonTree::Bool(true)) ==> control_step(
            r,
            Some(document),
            command,
        ) == (r, Seq::<ActionView>::empty()),
        control_step(r, None, command) == (r, Seq::<ActionView>::empty()),
{
}

/// Unless the router is stopped, a packet that asks to start, or does not say what
/// for, starts the first strategy of its name with the parameters that it holds,
/// behind the one that ran. The run has a number of its own, one more than the last.
pub proof fn strategies_start_when_asked_to(r: RouterView, name: Seq<char>, document: JsonTree, i: int)
    requires
        !r.estopped,
        document.text_at("action"@) is None || document.text_at("action"@) == Some("start"@),
        0 <= i < r.strategies.len() <= usize::MAX,
        r.strategies[i].spec_name() == name,
        forall|j: int| 0 <= j < i ==> (#[trigger] r.strategies[j]).spec_name() != name,
    ensures
        ({
            let params = match document.get("params"@) {
                Some(p) => p,
                None => JsonTree::Object(Seq::empty(), Seq::empty()),
            };
            let start = ActionView::Start(i as usize, r.next_run, params);
            &&& strategy_step(r, name, Some(document)).0 == (RouterView {
                active: Some(ActiveView { name, run: r.next_run }),
                next_run: ((r.next_run + 1) % 0x1_0000_0000_0000_0000) as u64,
                ..r
            })
            &&& strategy_step(r, name, Some(document)).1 == match r.active {
                Some(a) => seq![ActionView::CancelActive(a.name, a.run), start],
                None => seq![start],
            }
        }),
{
    reveal_strlit("start");
    reveal_strlit("stop");
    assert("start"@.len() != "stop"@.len());
    let names = r.names();
    assert(names[i] == name);
    names.index_of_first_ensures(name);
    let k = names.index_of_first(name)->0;
    assert(names[k] == r.strategies[k].spec_name());
    assert(k == i);
    let (after, actions) = strategy_step(r, name, Some(document));
    assert(actions =~= match r.active {
        Some(a) => seq![ActionView::CancelActive(a.name, a.run), actions.last()],
        None => seq![actions.last()],
    });
}

/// What asks to stop a strategy stops it if it is the one that runs, and what asks
/// for anything else, or holds no document, does nothing. A name that no strategy
/// has starts none, though what runs is cancelled.
pub proof fn strategies_stop_when_asked_to(r: RouterView, name: Seq<char>, document: JsonTree)
    requires
        !r.estopped,
    ensures
        ({
            let action = document.text_at("action"@);
            let nothing = (r, Seq::<ActionView>::empty());
            let ended = match r.active {
                Some(a) => (
                    RouterView { active: None, ..r },
                    seq![ActionView::CancelActive(a.name, a.run)],
                ),
                None => nothing,
            };
            &&& action == Some("stop"@) && r.active is Some && r.active->0.name == name
                ==> strategy_step(r, name, Some(document)) == ended
            &&& action == Some("stop"@) && !(r.active is Some && r.active->0.name == name)
                ==> strategy_step(r, name, Some(document)) == nothing
            &&& action is Some && action != Some("stop"@) && action != Some("start"@)
                ==> strategy_step(r, name, Some(document)) == nothing
            &&& (action is None || action == Some("start"@)) && (forall|j: int|
                0 <= j < r.strategies.len() ==> (#[trigger] r.strategies[j]).spec_name() != name)
                ==> strategy_step(r, name, Some(document)) == ended
            &&& strategy_step(r, name, None) == nothing
        }),
{
    reveal_strlit("start");
    reveal_strlit("stop");
    assert("start"@.len() != "stop"@.len());
    if forall|j: int| 0 <= j < r.strategies.len() ==> (#[trigger] r.strategies[j]).spec_name()
        != name {
        assert forall|j: int| 0 <= j < r.names().len() implies #[trigger] r.names()[j] != name by {
            assert(r.names()[j] == r.strategies[j].spec_name());
        }
    }
}

/// The end of a run leaves nothing running if it is the running one, and changes
/// nothing if it is another.
pub proof fn only_the_running_one_ends(r: RouterView, run: u64)
    ensures
        r.active is Some && r.active->0.run == run ==> exit_step(r, run) == (RouterView {
            active: None,
            ..r
        }),
        !(r.active is Some && r.active->0.run == run) ==> exit_step(r, run) == r,
{
}

/// A document with both velocities of the tracks is a normalized drive command of
/// these; one without, but with both sides, an absolute one of those; and any other
/// none.
pub proof fn documents_hold_drive_commands(document: JsonTree)
    ensures
        ({
            let (nl, nr) = (document.double_at("left_vel"@), document.double_at("right_vel"@));
            let (l, r) = (document.double_at("left"@), document.double_at("right"@));
            &&& nl is Some && nr is Some ==> control_in(document) == Some(
                ControlCommand::Normalized(
                    NormalizedDriveCommand {
                        left_norm: Scalar::Double(nl->0),
                        right_norm: Scalar::Double(nr->0),
                    },
                ),
            )
            &&& !(nl is Some && nr is Some) && l is Some && r is Some ==> control_in(document)
                == Some(
                ControlCommand::Absolute(
                    DriveCommand { left: Scalar::Double(l->0), right: Scalar::Double(r->0) },
                ),
            )
            &&& !(nl is Some && nr is Some) && !(l is Some && r is Some) ==> control_in(
                document,
            ) is None
        }),
{
}

/// What starts with a brace is read as JSON and as nothing else. Of the rest, a
/// message with tracks is a normalized drive command of their velocities, and what
/// is none is read as JSON after all.
pub proof fn packets_are_json_or_messages(
    data: Seq<u8>,
    document: Option<JsonTree>,
    message: RoveControl,
)
    ensures
        ({
            let json = match document {
                Some(d) => control_in(d),
                None => None,
            };
            let read = crate::command_router::proto::rove_control(data);
            let brace = data.len() > 0 && data[0] == 123;
            &&& brace ==> control_packet(data, document) == json
            &&& !brace && read is None ==> control_packet(data, document) == json
            &&& !brace && read == Some(message) && message.tracks is None ==> control_packet(
                data,
                document,
            ) == json
            &&& !brace && read == Some(message) && message.tracks is Some ==> control_packet(
                data,
                document,
            ) == Some(
                ControlCommand::Normalized(
                    NormalizedDriveCommand {
                        left_norm: Scalar::Single(message.tracks->0.left_vel),
                        right_norm: Scalar::Single(message.tracks->0.right_vel),
                    },
                ),
            )
        }),
{
}

/// There is an endpoint for the emergency stop, one for control, and one for each
/// strategy, on the ports that are configured for them.
pub proof fn every_endpoint_has_its_port(r: RouterView, i: int)
    requires
        r.ports_fit(),
        0 <= i < r.strategies.len(),
    ensures
        r.endpoints().len() == r.strategies.len() + 2,
        r.endpoints()[0] == (Endpoint { port: r.estop_port, kind: EndpointKind::Estop }),
        r.endpoints()[1] == (Endpoint { port: r.control_port, kind: EndpointKind::Control }),
        r.endpoints()[i + 2].kind == EndpointKind::Strategy(i as usize),
        r.endpoints()[i + 2].port == r.strategy_base_port + i,
        r.ports_fit() <==> r.strategy_base_port + r.strategies.len() <= 65_536,
{
}

/// The end of a run sends every node a set point of zero.
pub proof fn ended_runs_zero_the_drives(
    before: CommandContextView,
    after: CommandContextView,
    sent: Seq<Outgoing>,
    i: int,
)
    requires
        crate::command_router::strategies::stop_command().effect(before, after, sent),
        0 <= i < before.left_nodes.len() + before.right_nodes.len(),
    ensures
        sent.len() == before.left_nodes.len() + before.right_nodes.len(),
        sent[i] matches Outgoing::Drive(c) && c.setpoint matches Scalar::Single(bits) && bits
            % 0x8000_0000 == 0,
{
    crate::command_router::commands::drive::nodes_get_the_set_point_of_their_side(
        crate::command_router::strategies::stop_command(),
        before,
        after,
        sent,
        i,
    );
}

} // verus!
