//! Strategies: autonomy algorithms that drive the robot.
//!
//! A strategy is a [`Script`] of actions. To add one: write its script, give it
//! a name, and list it in [`register_all`]. The router gives the strategies UDP
//! ports in the order of that list.
pub mod point_turn;
pub mod square_pattern;

use vstd::prelude::*;

use crate::command_router::commands::drive::DriveCommand;
use crate::command_router::commands::{Command, CommandContext, Outgoing};
use crate::command_router::strategies::point_turn::PointTurn;
use crate::command_router::strategies::square_pattern::SquarePattern;
use crate::json::Json;
use crate::scalar::Scalar;

verus! {

/// The strategy was stopped by an operator or an emergency stop.
#[derive(Clone, Copy, Debug, PartialEq, Eq, Structural)]
pub struct Cancelled;

/// What a running strategy was started with.
#[derive(Debug)]
pub struct StrategyContext {
    pub params: Json,
}

/// The low 32 bits of an optional number.
pub open spec fn low_u32(n: Option<u64>, default: u32) -> u32 {
    match n {
        Some(v) => (v % 0x1_0000_0000) as u32,
        None => default,
    }
}

/// A number from JSON, or a default.
pub open spec fn scalar_or(bits: Option<u64>, default: Scalar) -> Scalar {
    match bits {
        Some(b) => Scalar::Double(b),
        None => default,
    }
}

impl StrategyContext {
    /// Drives, unless the strategy is cancelled.
    pub fn drive(&self, ctx: &mut CommandContext, cancelled: bool, left: Scalar, right: Scalar) -> (r:
        Result<Vec<Outgoing>, Cancelled>)
        ensures
            match r {
                Ok(sent) => {
                    &&& !cancelled
                    &&& (DriveCommand { left, right }).effect(old(ctx)@, final(ctx)@, sent@)
                },
                Err(_) => cancelled && final(ctx)@ == old(ctx)@,
            },
    {
        if cancelled {
            return Err(Cancelled);
        }
        Ok((DriveCommand { left, right }).execute(ctx))
    }

    /// Zeroes all drives.
    pub fn stop_drive(&self, ctx: &mut CommandContext) -> (sent: Vec<Outgoing>)
        ensures
            stop_command().effect(old(ctx)@, final(ctx)@, sent@),
    {
        (DriveCommand { left: Scalar::zero(), right: Scalar::zero() }).execute(ctx)
    }

    /// The number under `key`, or a default.
    pub fn param_f32(&self, key: &str, default: Scalar) -> (r: Scalar)
        ensures
            r == scalar_or(self.params@.double_at(key@), default),
    {
        match self.params.double_at(key) {
            Some(bits) => Scalar::Double(bits),
            None => default,
        }
    }

    /// The low 32 bits of the unsigned integer under `key`, or a default.
    pub fn param_u32(&self, key: &str, default: u32) -> (r: u32)
        ensures
            r == low_u32(self.params@.u64_at(key@), default),
    {
        match self.params.u64_at(key) {
            Some(v) => (v % 0x1_0000_0000) as u32,
            None => default,
        }
    }
}

/// The command that zeroes all drives.
pub open spec fn stop_command() -> DriveCommand {
    DriveCommand { left: Scalar::nought(), right: Scalar::nought() }
}

/// How a strategy ended.
#[derive(Clone, Copy, Debug, PartialEq, Eq, Structural)]
pub enum Outcome {
    Completed,
    Cancelled,
}

/// What a strategy does next.
#[derive(Clone, Copy, Debug, PartialEq, Eq, Structural)]
pub enum StrategyAction {
    /// Drive with these set points, left and right.
    Drive(Scalar, Scalar),
    /// Wait for so many seconds.
    Sleep(Scalar),
    /// Zero all drives.
    StopDrive,
    /// Nothing any more.
    Finish(Outcome),
}

/// The actions of a strategy.
#[derive(Clone, Copy, Debug, PartialEq, Eq, Structural)]
pub enum Script {
    /// Laps of four sides, each a way straight on and a turn.
    Square { speed: Scalar, side_seconds: Scalar, turn_seconds: Scalar, laps: u32 },
    /// One turn in place.
    Turn { left: Scalar, right: Scalar, seconds: Scalar },
}

impl Script {
    /// The number of actions.
    pub open spec fn len(self) -> nat {
        match self {
            Script::Square { laps, .. } => 16 * (laps as nat) + 1,
            Script::Turn { .. } => 3,
        }
    }

    /// The action in place `n`.
    pub open spec fn action(self, n: nat) -> StrategyAction {
        if n >= self.len() {
            StrategyAction::Finish(Outcome::Completed)
        } else if n + 1 == self.len() {
            StrategyAction::StopDrive
        } else {
            match self {
                Script::Square { speed, side_seconds, turn_seconds, laps } => if n % 4 == 0 {
                    StrategyAction::Drive(speed, speed)
                } else if n % 4 == 1 {
                    StrategyAction::Sleep(side_seconds)
                } else if n % 4 == 2 {
                    StrategyAction::Drive(speed, speed.negative())
                } else {
                    StrategyAction::Sleep(turn_seconds)
                },
                Script::Turn { left, right, seconds } => if n == 0 {
                    StrategyAction::Drive(left, right)
                } else {
                    StrategyAction::Sleep(seconds)
                },
            }
        }
    }

    /// The action in place `n`.
    pub fn action_at(&self, n: u64) -> (r: StrategyAction)
        ensures
            r == self.action(n as nat),
    {
        match self {
            Script::Square { speed, side_seconds, turn_seconds, laps } => {
                let end = 16 * (*laps as u64);
                if n > end {
                    StrategyAction::Finish(Outcome::Completed)
                } else if n == end {
                    StrategyAction::StopDrive
                } else if n % 4 == 0 {
                    StrategyAction::Drive(*speed, *speed)
                } else if n % 4 == 1 {
                    StrategyAction::Sleep(*side_seconds)
                } else if n % 4 == 2 {
                    StrategyAction::Drive(*speed, speed.negated())
                } else {
                    StrategyAction::Sleep(*turn_seconds)
                }
            },
            Script::Turn { left, right, seconds } => {
                if n == 0 {
                    StrategyAction::Drive(*left, *right)
                } else if n == 1 {
                    StrategyAction::Sleep(*seconds)
                } else if n == 2 {
                    StrategyAction::StopDrive
                } else {
                    StrategyAction::Finish(Outcome::Completed)
                }
            },
        }
    }
}

/// A strategy that runs: its script, the place in it, and how it ended.
#[derive(Clone, Copy, Debug, PartialEq, Eq, Structural)]
pub struct StrategyRun {
    pub script: Script,
    pub at: u64,
    pub ended: Option<Outcome>,
}

/// The run behind a step, and what the step does. A sleep that was interrupted
/// ends the run, and so does a drive of a cancelled strategy. Zeroing the drives
/// is done even then.
pub open spec fn run_step(run: StrategyRun, interrupted: bool, cancelled: bool) -> (
    StrategyRun,
    StrategyAction,
) {
    match run.ended {
        Some(outcome) => (run, StrategyAction::Finish(outcome)),
        None => {
            let action = run.script.action(run.at as nat);
            if interrupted || (cancelled && action is Drive) {
                (
                    StrategyRun { ended: Some(Outcome::Cancelled), ..run },
                    StrategyAction::Finish(Outcome::Cancelled),
                )
            } else {
                match action {
                    StrategyAction::Finish(outcome) => (
                        StrategyRun { ended: Some(outcome), ..run },
                        action,
                    ),
                    _ => (StrategyRun { at: (run.at + 1) as u64, ..run }, action),
                }
            }
        },
    }
}

impl StrategyRun {
    /// The place lies in the script.
    pub open spec fn well_formed(self) -> bool {
        self.at <= self.script.len()
    }

    /// A run at the start of a script.
    pub fn new(script: Script) -> (r: StrategyRun)
        ensures
            r == (StrategyRun { script, at: 0, ended: None }),
            r.well_formed(),
    {
        StrategyRun { script, at: 0, ended: None }
    }

    /// The next step: `interrupted` says that the last sleep was cut short,
    /// `cancelled` that the strategy is to stop.
    pub fn step(&mut self, interrupted: bool, cancelled: bool) -> (r: StrategyAction)
        requires
            old(self).well_formed(),
        ensures
            (*final(self), r) == run_step(*old(self), interrupted, cancelled),
            final(self).well_formed(),
    {
        match self.ended {
            Some(outcome) => StrategyAction::Finish(outcome),
            None => {
                let action = self.script.action_at(self.at);
                let drives = match action {
                    StrategyAction::Drive(_, _) => true,
                    _ => false,
                };
                if interrupted || (cancelled && drives) {
                    self.ended = Some(Outcome::Cancelled);
                    return StrategyAction::Finish(Outcome::Cancelled);
                }
                match action {
                    StrategyAction::Finish(outcome) => {
                        self.ended = Some(outcome);
                    },
                    _ => {
                        self.at = self.at + 1;
                    },
                }
                action
            },
        }
    }
}

/// An autonomy algorithm.
pub trait Strategy {
    spec fn spec_name(&self) -> Seq<char>;

    spec fn spec_description(&self) -> Seq<char>;

    /// The name under which the strategy is started and stopped.
    fn name(&self) -> (r: &'static str)
        ensures
            r@ == self.spec_name(),
    ;

    /// What the strategy does, and the parameters that it takes.
    fn description(&self) -> (r: &'static str)
        ensures
            r@ == self.spec_description(),
    ;
}

/// A strategy of the list in [`register_all`].
#[derive(Clone, Copy, Debug, PartialEq, Eq, Structural)]
pub enum RegisteredStrategy {
    SquarePattern(SquarePattern),
    PointTurn(PointTurn),
}

impl Strategy for RegisteredStrategy {
    open spec fn spec_name(&self) -> Seq<char> {
        match self {
            RegisteredStrategy::SquarePattern(s) => s.spec_name(),
            RegisteredStrategy::PointTurn(s) => s.spec_name(),
        }
    }

    open spec fn spec_description(&self) -> Seq<char> {
        match self {
            RegisteredStrategy::SquarePattern(s) => s.spec_description(),
            RegisteredStrategy::PointTurn(s) => s.spec_description(),
        }
    }

    fn name(&self) -> (r: &'static str) {
        match self {
            RegisteredStrategy::SquarePattern(s) => s.name(),
            RegisteredStrategy::PointTurn(s) => s.name(),
        }
    }

    fn description(&self) -> (r: &'static str) {
        match self {
            RegisteredStrategy::SquarePattern(s) => s.description(),
            RegisteredStrategy::PointTurn(s) => s.description(),
        }
    }
}

/// All strategies, in the order of their ports.
pub open spec fn registered() -> Seq<RegisteredStrategy> {
    seq![
        RegisteredStrategy::SquarePattern(SquarePattern),
        RegisteredStrategy::PointTurn(PointTurn),
    ]
}

/// All strategies, in the order of their ports.
pub fn register_all() -> (r: Vec<RegisteredStrategy>)
    ensures
        r@ == registered(),
{
    let mut out: Vec<RegisteredStrategy> = Vec::new();
    out.push(RegisteredStrategy::SquarePattern(SquarePattern));
    out.push(RegisteredStrategy::PointTurn(PointTurn));
    assert(out@ =~= registered());
    out
}

/// The run and the action of the `n`th step of a run that nothing disturbs.
pub open spec fn undisturbed(run: StrategyRun, n: nat) -> (StrategyRun, StrategyAction)
    decreases n,
{
    if n == 0 {
        run_step(run, false, false)
    } else {
        run_step(undisturbed(run, (n - 1) as nat).0, false, false)
    }
}

/// A run that nothing disturbs performs its script action by action, and then
/// reports that it is complete.
pub proof fn undisturbed_runs_follow_the_script(script: Script, n: nat)
    ensures
        undisturbed(StrategyRun { script, at: 0, ended: None }, n).1 == script.action(n),
        undisturbed(StrategyRun { script, at: 0, ended: None }, n).0 == (if n < script.len() {
            StrategyRun { script, at: (n + 1) as u64, ended: None }
        } else {
            StrategyRun { script, at: script.len() as u64, ended: Some(Outcome::Completed) }
        }),
    decreases n,
{
    if n > 0 {
        undisturbed_runs_follow_the_script(script, (n - 1) as nat);
    }
}

/// The last thing that a complete run does is to zero the drives.
pub proof fn scripts_end_with_a_stop(script: Script)
    ensures
        script.action((script.len() - 1) as nat) == StrategyAction::StopDrive,
        script.action(script.len()) == StrategyAction::Finish(Outcome::Completed),
{
}

/// A cancelled strategy does not drive.
pub proof fn cancelled_runs_do_not_drive(run: StrategyRun, interrupted: bool)
    ensures
        !(run_step(run, interrupted, true).1 is Drive),
{
}

/// A run that has ended stays so.
pub proof fn ended_runs_stay_ended(run: StrategyRun, interrupted: bool, cancelled: bool)
    requires
        run.ended is Some,
    ensures
        run_step(run, interrupted, cancelled) == (run, StrategyAction::Finish(run.ended->0)),
{
}

/// Side by side, an undisturbed square run drives straight on, waits for the time of
/// a side, turns in place with the right track running backwards, and waits for the
/// time of a turn. It does so four times a lap for as many laps as were asked for,
/// then zeroes the drives, and then is complete.
pub proof fn squares_are_driven_lap_by_lap(
    speed: Scalar,
    side_seconds: Scalar,
    turn_seconds: Scalar,
    laps: u32,
    side: nat,
)
    ensures
        ({
            let script = Script::Square { speed, side_seconds, turn_seconds, laps };
            let run = StrategyRun { script, at: 0, ended: None };
            &&& side < 4 * laps ==> {
                &&& undisturbed(run, 4 * side).1 == StrategyAction::Drive(speed, speed)
                &&& undisturbed(run, 4 * side + 1).1 == StrategyAction::Sleep(side_seconds)
                &&& undisturbed(run, 4 * side + 2).1 == StrategyAction::Drive(
                    speed,
                    speed.negative(),
                )
                &&& undisturbed(run, 4 * side + 3).1 == StrategyAction::Sleep(turn_seconds)
            }
            &&& undisturbed(run, 16 * (laps as nat)).1 == StrategyAction::StopDrive
            &&& undisturbed(run, 16 * (laps as nat) + 1 + side).1 == StrategyAction::Finish(
                Outcome::Completed,
            )
        }),
{
    let script = Script::Square { speed, side_seconds, turn_seconds, laps };
    undisturbed_runs_follow_the_script(script, 4 * side);
    undisturbed_runs_follow_the_script(script, 4 * side + 1);
    undisturbed_runs_follow_the_script(script, 4 * side + 2);
    undisturbed_runs_follow_the_script(script, 4 * side + 3);
    undisturbed_runs_follow_the_script(script, 16 * (laps as nat));
    undisturbed_runs_follow_the_script(script, 16 * (laps as nat) + 1 + side);
}

/// How often the first `n` steps of an undisturbed run drive with these set
/// points.
pub open spec fn drives_within(script: Script, left: Scalar, right: Scalar, n: nat) -> nat
    decreases n,
{
    if n == 0 {
        0
    } else {
        let k = (n - 1) as nat;
        drives_within(script, left, right, k) + if undisturbed(
            StrategyRun { script, at: 0, ended: None },
            k,
        ).1 == StrategyAction::Drive(left, right) {
            1nat
        } else {
            0nat
        }
    }
}

/// An undisturbed square run has four sides and four turns for every lap: so often
/// it drives straight on and turns, over however many steps.
pub proof fn every_lap_has_four_sides(
    speed: Scalar,
    side_seconds: Scalar,
    turn_seconds: Scalar,
    laps: u32,
    more: nat,
)
    ensures
        ({
            let script = Script::Square { speed, side_seconds, turn_seconds, laps };
            let steps = 16 * (laps as nat) + more;
            &&& drives_within(script, speed, speed, steps) == 4 * laps
            &&& drives_within(script, speed, speed.negative(), steps) == 4 * laps
        }),
    decreases more,
{
    let script = Script::Square { speed, side_seconds, turn_seconds, laps };
    if more > 0 {
        every_lap_has_four_sides(speed, side_seconds, turn_seconds, laps, (more - 1) as nat);
        undisturbed_runs_follow_the_script(script, (16 * (laps as nat) + more - 1) as nat);
    } else {
        lemma_sides(speed, side_seconds, turn_seconds, laps, 4 * (laps as nat));
    }
}

proof fn lemma_sides(
    speed: Scalar,
    side_seconds: Scalar,
    turn_seconds: Scalar,
    laps: u32,
    sides: nat,
)
    requires
        sides <= 4 * laps,
    ensures
        ({
            let script = Script::Square { speed, side_seconds, turn_seconds, laps };
            &&& drives_within(script, speed, speed, 4 * sides) == sides
            &&& drives_within(script, speed, speed.negative(), 4 * sides) == sides
        }),
    decreases sides,
{
    let script = Script::Square { speed, side_seconds, turn_seconds, laps };
    if sides > 0 {
        let before = (sides - 1) as nat;
        lemma_sides(speed, side_seconds, turn_seconds, laps, before);
        squares_are_driven_lap_by_lap(speed, side_seconds, turn_seconds, laps, before);
        crate::scalar::negation_changes_the_sign_alone(speed);
        assert(4 * sides == 4 * before + 4);
        let n = 4 * before;
        reveal_with_fuel(drives_within, 2);
        assert(drives_within(script, speed, speed, n + 1) == before + 1);
        assert(drives_within(script, speed, speed, n + 2) == before + 1);
        assert(drives_within(script, speed, speed, n + 3) == before + 1);
        assert(drives_within(script, speed, speed, n + 4) == before + 1);
        let back = speed.negative();
        assert(drives_within(script, speed, back, n + 1) == before);
        assert(drives_within(script, speed, back, n + 2) == before);
        assert(drives_within(script, speed, back, n + 3) == before + 1);
        assert(drives_within(script, speed, back, n + 4) == before + 1);
    }
}

/// An undisturbed turn drives once with its set points, waits for its time, zeroes
/// the drives, and is complete.
pub proof fn turns_are_driven_once(left: Scalar, right: Scalar, seconds: Scalar, more: nat)
    ensures
        ({
            let run = StrategyRun {
                script: Script::Turn { left, right, seconds },
                at: 0,
                ended: None,
            };
            &&& undisturbed(run, 0).1 == StrategyAction::Drive(left, right)
            &&& undisturbed(run, 1).1 == StrategyAction::Sleep(seconds)
            &&& undisturbed(run, 2).1 == StrategyAction::StopDrive
            &&& undisturbed(run, 3 + more).1 == StrategyAction::Finish(Outcome::Completed)
        }),
{
    let script = Script::Turn { left, right, seconds };
    undisturbed_runs_follow_the_script(script, 0);
    undisturbed_runs_follow_the_script(script, 1);
    undisturbed_runs_follow_the_script(script, 2);
    undisturbed_runs_follow_the_script(script, 3 + more);
}

/// A sleep that is cut short ends a run as cancelled, and so does a drive that
/// comes up once it is cancelled. A cancelled run still zeroes its drives if that
/// is what comes next, and reports that it is complete if nothing does.
pub proof fn cancelling_ends_runs(run: StrategyRun, cancelled: bool)
    requires
        run.well_formed(),
        run.ended is None,
    ensures
        run_step(run, true, cancelled) == (
            StrategyRun { ended: Some(Outcome::Cancelled), ..run },
            StrategyAction::Finish(Outcome::Cancelled),
        ),
        run_step(run, false, false).1 is Drive ==> run_step(run, false, true) == (
            StrategyRun { ended: Some(Outcome::Cancelled), ..run },
            StrategyAction::Finish(Outcome::Cancelled),
        ),
        !(run_step(run, false, false).1 is Drive) ==> run_step(run, false, true) == run_step(
            run,
            false,
            false,
        ),
{
}

/// Parameters are taken as they are given, a count by its low 32 bits. What is not
/// given has its default, and the drives are zeroed with set points of zero.
pub proof fn parameters_are_taken_over(
    count: u64,
    bits: u64,
    default_count: u32,
    default: Scalar,
)
    ensures
        count < 0x1_0000_0000 ==> low_u32(Some(count), default_count) == count,
        exists|high: int| count == #[trigger] (high * 0x1_0000_0000) + low_u32(
            Some(count),
            default_count,
        ),
        low_u32(None, default_count) == default_count,
        scalar_or(Some(bits), default) == Scalar::Double(bits),
        scalar_or(None, default) == default,
        stop_command().left == Scalar::Single(0),
        stop_command().right == Scalar::Single(0),
{
    let high = (count / 0x1_0000_0000) as int;
    assert(count == (high * 0x1_0000_0000) + count % 0x1_0000_0000);
}

/// There are two strategies, the square first and the turn behind it.
pub proof fn strategies_are_listed()
    ensures
        registered().len() == 2,
        registered()[0].spec_name() == "square_pattern"@,
        registered()[1].spec_name() == "point_turn"@,
        registered()[0] is SquarePattern,
        registered()[1] is PointTurn,
{
}

} // verus!
