//! The link to the inverse kinematics engine.
//!
//! - Joint readings go out at the cadence of the arm's data.
//! - Every twist of the operator is forwarded, also one of zero.
//! - Joint commands of the engine are mapped to the arm, and the arm is driven
//!   at a steady rate from the latest of them.
use vstd::prelude::*;

use crate::control_interface::config::{IkEngineCfg, JointMapEntry};
use crate::control_interface::report::{due, raise_peak, SUMMARY_INTERVAL_NS};
use crate::control_interface::state::{joint_key_text, ArmSnapshot};
use crate::text::{chars_of, endpoint, same_text};

verus! {

/// How the engine solves.
#[derive(Clone, Copy, Debug, PartialEq, Eq, Structural)]
pub enum IkMode {
    /// Joint velocities.
    ResolvedRate,
    /// Joint positions.
    PositionIk,
}

impl IkMode {
    /// The number of the mode on the wire. The two numbers are assumed, and are to
    /// be held against the schema that the engine uses.
    pub open spec fn number(self) -> u32 {
        match self {
            IkMode::ResolvedRate => 0,
            IkMode::PositionIk => 1,
        }
    }

    /// The number of the mode on the wire.
    pub fn code(self) -> (r: u32)
        ensures
            r == self.number(),
    {
        match self {
            IkMode::ResolvedRate => 0,
            IkMode::PositionIk => 1,
        }
    }
}

/// The code point of `c`, with an upper case ASCII letter in lower case.
pub open spec fn lower_code(c: char) -> int {
    if 'A' <= c <= 'Z' {
        c as int + 32
    } else {
        c as int
    }
}

/// Whether `a` reads like `b` once its ASCII letters are in lower case.
pub open spec fn lowers_to(a: Seq<char>, b: Seq<char>) -> bool {
    a.len() == b.len() && forall|i: int| 0 <= i < a.len() ==> #[trigger] lower_code(a[i]) == b[i] as int
}

/// The mode that a configuration names.
pub open spec fn mode_named(s: Seq<char>) -> IkMode {
    if lowers_to(s, "position_ik"@) {
        IkMode::PositionIk
    } else {
        IkMode::ResolvedRate
    }
}

/// The number of the mode that a configuration names, in any case of letters.
/// Everything but `position_ik` stands for resolved rate.
pub fn ik_mode(s: &str) -> (r: u32)
    ensures
        r == mode_named(s@).number(),
{
    let given = chars_of(s);
    let name = chars_of("position_ik");
    if given.len() != name.len() {
        return IkMode::ResolvedRate.code();
    }
    for i in 0..given.len()
        invariant
            given@ == s@,
            name@ == "position_ik"@,
            given@.len() == name@.len(),
            forall|j: int| 0 <= j < i ==> #[trigger] lower_code(given@[j]) == name@[j] as int,
    {
        let c = given[i];
        let d = name[i];
        let same = if 'A' <= c && c <= 'Z' {
            'a' <= d && d <= 'z' && d as u32 == c as u32 + 32
        } else {
            c == d
        };
        assert(same == (lower_code(given@[i as int]) == name@[i as int] as int));
        if !same {
            return IkMode::ResolvedRate.code();
        }
    }
    IkMode::PositionIk.code()
}

/// A reading of a joint on its way to the engine. What is sent is the angle
/// `pos_deg - home_deg` in radians, with the other sign where `invert` is set.
#[derive(Debug)]
pub struct JointReading {
    pub name: String,
    /// The bits of a double.
    pub pos_deg: u64,
    /// The bits of a single.
    pub home_deg: u32,
    pub invert: bool,
}

/// The mathematical content of a [`JointReading`].
pub struct ReadingView {
    pub name: Seq<char>,
    pub pos_deg: u64,
    pub home_deg: u32,
    pub invert: bool,
}

impl View for JointReading {
    type V = ReadingView;

    open spec fn view(&self) -> ReadingView {
        ReadingView {
            name: self.name@,
            pos_deg: self.pos_deg,
            home_deg: self.home_deg,
            invert: self.invert,
        }
    }
}

impl ReadingView {
    /// The value that is sent, where `angle` is what position and home come to.
    pub open spec fn sent(self, angle: spec_fn(u64, u32) -> u32) -> u32 {
        directed(angle(self.pos_deg, self.home_deg), self.invert)
    }
}

impl JointReading {
    /// The value that is sent, where `angle` is the bits of what position and home
    /// come to.
    pub fn value(&self, angle: u32) -> (r: u32)
        ensures
            r == directed(angle, self.invert),
    {
        direct(angle, self.invert)
    }
}

/// The reading of the joint that an entry maps.
pub open spec fn reading_of(entry: JointMapEntry, positions: Seq<u64>) -> ReadingView {
    ReadingView {
        name: entry.ik_id@,
        pos_deg: positions[entry.slot_of()->0],
        home_deg: entry.home_deg,
        invert: entry.invert,
    }
}

/// The readings of all joints that the map and the arm have, in the order of
/// the map.
pub open spec fn mapped_readings(map: Seq<JointMapEntry>, positions: Seq<u64>) -> Seq<ReadingView> {
    map.filter(|e: JointMapEntry| e.slot_of() is Some).map_values(
        |e: JointMapEntry| reading_of(e, positions),
    )
}

/// The contents of readings.
pub open spec fn reading_views(readings: Seq<JointReading>) -> Seq<ReadingView> {
    Seq::new(readings.len(), |i: int| readings[i]@)
}

/// The readings that go to the engine for one report of the arm.
pub fn joint_readings(map: &Vec<JointMapEntry>, snap: &ArmSnapshot) -> (r: Vec<JointReading>)
    ensures
        reading_views(r@) == mapped_readings(map@, snap@.joint_pos_deg),
{
    let mut out: Vec<JointReading> = Vec::new();
    let ghost mapped = |e: JointMapEntry| e.slot_of() is Some;
    let ghost read = |e: JointMapEntry| reading_of(e, snap@.joint_pos_deg);
    proof {
        reveal(Seq::filter);
        assert(map@.take(0).filter(mapped).map_values(read) =~= Seq::empty());
    }
    for i in 0..map.len()
        invariant
            mapped == (|e: JointMapEntry| e.slot_of() is Some),
            read == (|e: JointMapEntry| reading_of(e, snap@.joint_pos_deg)),
            reading_views(out@) =~= map@.take(i as int).filter(mapped).map_values(read),
    {
        let entry = &map[i];
        let ghost before = out@;
        let ghost prefix = map@.take(i as int);
        proof {
            reveal(Seq::filter);
            assert(map@.take(i + 1).drop_last() =~= prefix);
            assert(map@.take(i + 1).last() == *entry);
        }
        match entry.slot() {
            Some(idx) => {
                out.push(
                    JointReading {
                        name: entry.ik_id.clone(),
                        pos_deg: snap.joint_pos_deg[idx],
                        home_deg: entry.home_deg,
                        invert: entry.invert,
                    },
                );
                proof {
                    assert(prefix.filter(mapped).push(*entry).map_values(read) =~= prefix.filter(
                        mapped,
                    ).map_values(read).push(read(*entry)));
                    assert(reading_views(out@) =~= reading_views(before).push(read(*entry)));
                }
            },
            None => {},
        }
    }
    assert(map@.take(map@.len() as int) =~= map@);
    out
}

/// Counts the readings that went out.
pub struct JointPusher {
    packets: u64,
}

impl JointPusher {
    /// The number of readings that went out.
    pub closed spec fn sent(&self) -> u64 {
        self.packets
    }

    /// Nothing went out yet.
    pub fn new() -> (r: JointPusher)
        ensures
            r.sent() == 0,
    {
        JointPusher { packets: 0 }
    }

    /// The number of readings that went out.
    pub fn packets(&self) -> (r: u64)
        ensures
            r == self.sent(),
    {
        self.packets
    }

    /// Notes whether a reading went out. The first one is worth a line, and so are
    /// the hundredth, the thousandth and the ten thousandth.
    pub fn on_sent(&mut self, ok: bool) -> (r: Option<u64>)
        requires
            ok ==> old(self).sent() < u64::MAX,
        ensures
            final(self).sent() == old(self).sent() + if ok {
                1int
            } else {
                0int
            },
            r == if ok && is_milestone(final(self).sent()) {
                Some(final(self).sent())
            } else {
                None
            },
    {
        if !ok {
            return None;
        }
        self.packets = self.packets + 1;
        if self.packets == 1 || self.packets == 100 || self.packets == 1_000 || self.packets
            == 10_000 {
            Some(self.packets)
        } else {
            None
        }
    }
}

/// Whether a number of readings is worth a line.
pub open spec fn is_milestone(n: u64) -> bool {
    n == 1 || n == 100 || n == 1_000 || n == 10_000
}

/// A named number of a joint command, as the bits of a single.
#[derive(Debug)]
pub struct NamedFloat {
    pub name: String,
    pub value: u32,
}

/// What the engine commands. `residual` is the bits of a single.
#[derive(Debug)]
pub struct JointCommand {
    pub joints: Vec<NamedFloat>,
    pub mode: u32,
    pub residual: u32,
    pub converged: bool,
}

/// A joint command in terms of the arm: the velocity of each of its joints in
/// radians per second, as the bits of a single. Joints outside the chain stay
/// at zero.
#[derive(Clone, Copy, Debug)]
pub struct VelocsCommand {
    pub vel_rad_s: [u32; 6],
    pub mode: u32,
    /// The bits of a single.
    pub residual: u32,
    pub converged: bool,
}

/// The mathematical content of a [`VelocsCommand`].
pub struct VelocsView {
    pub vel_rad_s: Seq<u32>,
    pub mode: u32,
    pub residual: u32,
    pub converged: bool,
}

impl View for VelocsCommand {
    type V = VelocsView;

    open spec fn view(&self) -> VelocsView {
        VelocsView {
            vel_rad_s: self.vel_rad_s@,
            mode: self.mode,
            residual: self.residual,
            converged: self.converged,
        }
    }
}

/// No joint moves.
pub open spec fn at_rest() -> Seq<u32> {
    Seq::new(6, |i: int| 0u32)
}

impl VelocsView {
    /// The command to stand still.
    pub open spec fn rest() -> VelocsView {
        VelocsView { vel_rad_s: at_rest(), mode: 0, residual: 0, converged: false }
    }
}

impl Default for VelocsCommand {
    fn default() -> (r: VelocsCommand)
        ensures
            r@ == VelocsView::rest(),
    {
        let r = VelocsCommand { vel_rad_s: [0;6], mode: 0, residual: 0, converged: false };
        assert(r.vel_rad_s@ =~= at_rest());
        r
    }
}

/// The keys and values of fields.
pub open spec fn field_texts(fields: Seq<(String, u32)>) -> Seq<(Seq<char>, u32)> {
    Seq::new(fields.len(), |i: int| (fields[i].0@, fields[i].1))
}

impl VelocsCommand {
    /// The fields of the command to the arm: the velocity of every joint, in
    /// radians per second, under the key of the joint.
    pub fn fields(&self) -> (r: Vec<(String, u32)>)
        ensures
            field_texts(r@) == Seq::new(
                6,
                |i: int|
                    (
                        crate::control_interface::state::joint_key(i + 1, "_vel"@),
                        self@.vel_rad_s[i],
                    ),
            ),
    {
        let mut out: Vec<(String, u32)> = Vec::new();
        for i in 0..6usize
            invariant
                out@.len() == i,
                forall|j: int|
                    0 <= j < i ==> (#[trigger] out@[j]).0@
                        == crate::control_interface::state::joint_key(j + 1, "_vel"@) && out@[j].1
                        == self@.vel_rad_s[j],
        {
            out.push((joint_key_text(i, "_vel"), self.vel_rad_s[i]));
        }
        assert(field_texts(out@) =~= Seq::new(
            6,
            |i: int|
                (
                    crate::control_interface::state::joint_key(i + 1, "_vel"@),
                    self@.vel_rad_s[i],
                ),
        ));
        out
    }
}

/// The first entry of the map for the joint `name`.
pub open spec fn entry_for(map: Seq<JointMapEntry>, name: Seq<char>) -> Option<JointMapEntry>
    decreases map.len(),
{
    if map.len() == 0 {
        None
    } else if map[0].ik_id@ == name {
        Some(map[0])
    } else {
        entry_for(map.skip(1), name)
    }
}

/// A value in the direction in which the arm turns.
pub open spec fn directed(value: u32, invert: bool) -> u32 {
    if invert {
        crate::scalar::flip32(value)
    } else {
        value
    }
}

/// The velocities after one joint of a command more.
pub open spec fn with_joint(map: Seq<JointMapEntry>, vel: Seq<u32>, joint: NamedFloat) -> Seq<u32> {
    match entry_for(map, joint.name@) {
        Some(entry) => match entry.slot_of() {
            Some(i) => vel.update(i, directed(joint.value, entry.invert)),
            None => vel,
        },
        None => vel,
    }
}

/// The velocities that the joints of a command come to. Of two joints for one
/// slot the later one counts.
pub open spec fn mapped_velocities(map: Seq<JointMapEntry>, joints: Seq<NamedFloat>) -> Seq<u32>
    decreases joints.len(),
{
    if joints.len() == 0 {
        at_rest()
    } else {
        with_joint(map, mapped_velocities(map, joints.drop_last()), joints.last())
    }
}

/// What a command of the engine comes to. Only velocities are acted upon: a
/// command of another mode comes to nothing.
pub open spec fn mapped_command(map: Seq<JointMapEntry>, cmd: JointCommand) -> Option<VelocsView> {
    if cmd.mode == IkMode::ResolvedRate.number() {
        Some(
            VelocsView {
                vel_rad_s: mapped_velocities(map, cmd.joints@),
                mode: cmd.mode,
                residual: cmd.residual,
                converged: cmd.converged,
            },
        )
    } else {
        None
    }
}

/// Finds the first entry of the map for the joint `name`.
fn find_entry<'a>(map: &'a Vec<JointMapEntry>, name: &str) -> (r: Option<&'a JointMapEntry>)
    ensures
        match r {
            Some(entry) => entry_for(map@, name@) == Some(*entry),
            None => entry_for(map@, name@) is None,
        },
{
    assert(map@.skip(0) =~= map@);
    for i in 0..map.len()
        invariant
            entry_for(map@, name@) == entry_for(map@.skip(i as int), name@),
    {
        if same_text(map[i].ik_id.as_str(), name) {
            return Some(&map[i]);
        }
        assert(map@.skip(i as int).skip(1) =~= map@.skip(i + 1));
    }
    None
}

/// Gives a value the direction in which the arm turns.
fn direct(value: u32, invert: bool) -> (r: u32)
    ensures
        r == directed(value, invert),
{
    if !invert {
        value
    } else if value < 0x8000_0000 {
        value + 0x8000_0000
    } else {
        value - 0x8000_0000
    }
}

/// Maps a command of the engine to the arm.
pub fn map_command(map: &Vec<JointMapEntry>, cmd: &JointCommand) -> (r: Option<VelocsCommand>)
    ensures
        match r {
            Some(out) => mapped_command(map@, *cmd) == Some(out@),
            None => mapped_command(map@, *cmd) is None,
        },
{
    if cmd.mode != IkMode::ResolvedRate.code() {
        return None;
    }
    let mut vel: [u32; 6] = [0;6];
    assert(vel@ =~= mapped_velocities(map@, cmd.joints@.take(0)));
    for i in 0..cmd.joints.len()
        invariant
            vel@ =~= mapped_velocities(map@, cmd.joints@.take(i as int)),
    {
        let nf = &cmd.joints[i];
        assert(cmd.joints@.take(i + 1).drop_last() =~= cmd.joints@.take(i as int));
        match find_entry(map, nf.name.as_str()) {
            Some(entry) => {
                match entry.slot() {
                    Some(idx) => {
                        vel[idx] = direct(nf.value, entry.invert);
                    },
                    None => {},
                }
            },
            None => {},
        }
    }
    assert(cmd.joints@.take(cmd.joints@.len() as int) =~= cmd.joints@);
    Some(
        VelocsCommand {
            vel_rad_s: vel,
            mode: cmd.mode,
            residual: cmd.residual,
            converged: cmd.converged,
        },
    )
}

/// What the link from the engine is summed up to.
#[derive(Clone, Copy, Debug, PartialEq, Eq, Structural)]
pub struct VelocsSummary {
    /// The number of commands since the last summary.
    pub frames: u64,
    /// The greatest speed of a joint in them, in radians per second, as the bits of
    /// a single.
    pub peak_rad_s: u32,
}

/// What the program is to do about a command of the engine.
#[derive(Clone, Copy, Debug)]
pub struct VelocsReport {
    /// What goes to the arm.
    pub forward: Option<VelocsCommand>,
    /// The summary of the link, where it is due.
    pub summary: Option<VelocsSummary>,
}

/// Takes the commands of the engine.
pub struct VelocsListener {
    frames: u64,
    peak_rad_s: u32,
    last_summary_ns: Option<u64>,
}

/// The mathematical content of a [`VelocsListener`].
pub struct ListenerView {
    /// The number of commands since the link was last summed up.
    pub frames: u64,
    /// The greatest speed of a joint in them.
    pub peak_rad_s: u32,
    /// When the link was last summed up.
    pub last_summary_ns: Option<u64>,
}

impl View for VelocsListener {
    type V = ListenerView;

    closed spec fn view(&self) -> ListenerView {
        ListenerView {
            frames: self.frames,
            peak_rad_s: self.peak_rad_s,
            last_summary_ns: self.last_summary_ns,
        }
    }
}

impl ListenerView {
    /// The summary that is due with a command that comes to these velocities.
    pub open spec fn summary(self, vel: Seq<u32>, now_ns: u64) -> Option<VelocsSummary> {
        if crate::control_interface::report::is_due(
            self.last_summary_ns,
            now_ns,
            SUMMARY_INTERVAL_NS,
        ) {
            Some(
                VelocsSummary {
                    frames: (self.frames + 1) as u64,
                    peak_rad_s: crate::control_interface::report::peak_over(self.peak_rad_s, vel),
                },
            )
        } else {
            None
        }
    }

    /// The link after a command that comes to these velocities.
    pub open spec fn after(self, vel: Seq<u32>, now_ns: u64) -> ListenerView {
        if self.summary(vel, now_ns) is Some {
            ListenerView { frames: 0, peak_rad_s: 0, last_summary_ns: Some(now_ns) }
        } else {
            ListenerView {
                frames: (self.frames + 1) as u64,
                peak_rad_s: crate::control_interface::report::peak_over(self.peak_rad_s, vel),
                last_summary_ns: self.last_summary_ns,
            }
        }
    }
}

impl VelocsListener {
    /// No command came in yet.
    pub fn new() -> (r: VelocsListener)
        ensures
            r@ == (ListenerView { frames: 0, peak_rad_s: 0, last_summary_ns: None }),
    {
        VelocsListener { frames: 0, peak_rad_s: 0, last_summary_ns: None }
    }

    /// The number of commands since the link was last summed up.
    pub fn frames(&self) -> (r: u64)
        ensures
            r == self@.frames,
    {
        self.frames
    }

    /// Takes a command of the engine. One that comes to nothing is not counted.
    pub fn on_command(
        &mut self,
        map: &Vec<JointMapEntry>,
        cmd: &JointCommand,
        now_ns: u64,
    ) -> (r: VelocsReport)
        requires
            cmd.mode == IkMode::ResolvedRate.number() ==> old(self)@.frames < u64::MAX,
        ensures
            match mapped_command(map@, *cmd) {
                Some(velocs) => {
                    &&& r.forward matches Some(out) && out@ == velocs
                    &&& r.summary == old(self)@.summary(velocs.vel_rad_s, now_ns)
                    &&& final(self)@ == old(self)@.after(velocs.vel_rad_s, now_ns)
                },
                None => {
                    &&& r.forward is None
                    &&& r.summary is None
                    &&& final(self)@ == old(self)@
                },
            },
    {
        let out = match map_command(map, cmd) {
            Some(out) => out,
            None => {
                return VelocsReport { forward: None, summary: None };
            },
        };
        let ghost vel = out.vel_rad_s@;
        let mut peak: u32 = self.peak_rad_s;
        assert(vel.take(0) =~= Seq::empty());
        for i in 0..6usize
            invariant
                vel == out.vel_rad_s@,
                peak == crate::control_interface::report::peak_over(
                    self.peak_rad_s,
                    vel.take(i as int),
                ),
        {
            assert(vel.take(i + 1).drop_last() =~= vel.take(i as int));
            peak = raise_peak(peak, out.vel_rad_s[i]);
        }
        assert(vel.take(6) =~= vel);
        self.peak_rad_s = peak;
        self.frames = self.frames + 1;
        let mut summary: Option<VelocsSummary> = None;
        if due(self.last_summary_ns, now_ns, SUMMARY_INTERVAL_NS) {
            summary = Some(VelocsSummary { frames: self.frames, peak_rad_s: peak });
            self.last_summary_ns = Some(now_ns);
            self.frames = 0;
            self.peak_rad_s = 0;
        }
        VelocsReport { forward: Some(out), summary }
    }
}

/// How many commands may wait for the arm.
pub const QUEUE_LEN: usize = 8;

/// The commands that wait for the arm. Where it is full, the oldest one goes, so
/// that the arm never acts on stale commands.
pub struct CommandQueue {
    waiting: Vec<VelocsCommand>,
}

impl View for CommandQueue {
    type V = Seq<VelocsCommand>;

    closed spec fn view(&self) -> Seq<VelocsCommand> {
        self.waiting@
    }
}

/// The queue with a command more.
pub open spec fn queued(q: Seq<VelocsCommand>, cmd: VelocsCommand) -> Seq<VelocsCommand> {
    if q.len() < QUEUE_LEN {
        q.push(cmd)
    } else {
        q.skip(1).push(cmd)
    }
}

impl CommandQueue {
    /// Nothing waits.
    pub fn new() -> (r: CommandQueue)
        ensures
            r@ == Seq::<VelocsCommand>::empty(),
    {
        CommandQueue { waiting: Vec::new() }
    }

    /// Lets a command wait.
    pub fn push(&mut self, cmd: VelocsCommand)
        ensures
            final(self)@ == queued(old(self)@, cmd),
    {
        let ghost before = self.waiting@;
        if self.waiting.len() >= QUEUE_LEN {
            self.waiting.remove(0);
            assert(self.waiting@ =~= before.skip(1));
        }
        self.waiting.push(cmd);
    }

    /// Takes out the command that waits for longest.
    pub fn pop(&mut self) -> (r: Option<VelocsCommand>)
        ensures
            match r {
                Some(cmd) => old(self)@.len() > 0 && cmd == old(self)@[0] && final(self)@
                    == old(self)@.skip(1),
                None => old(self)@.len() == 0 && final(self)@ == old(self)@,
            },
    {
        let ghost before = self.waiting@;
        if self.waiting.len() == 0 {
            return None;
        }
        let cmd = self.waiting.remove(0);
        assert(self.waiting@ =~= before.skip(1));
        Some(cmd)
    }
}

/// The queue after commands that nobody took out.
pub open spec fn queued_all(cmds: Seq<VelocsCommand>) -> Seq<VelocsCommand>
    decreases cmds.len(),
{
    if cmds.len() == 0 {
        Seq::empty()
    } else {
        queued(queued_all(cmds.drop_last()), cmds.last())
    }
}

/// The queue keeps the newest commands, in their order.
pub proof fn queues_keep_the_newest(cmds: Seq<VelocsCommand>)
    ensures
        queued_all(cmds) == if cmds.len() <= QUEUE_LEN {
            cmds
        } else {
            cmds.skip(cmds.len() - QUEUE_LEN)
        },
    decreases cmds.len(),
{
    if cmds.len() > 0 {
        queues_keep_the_newest(cmds.drop_last());
        assert(queued_all(cmds) =~= if cmds.len() <= QUEUE_LEN {
            cmds
        } else {
            cmds.skip(cmds.len() - QUEUE_LEN)
        });
    }
}

/// Drives the arm at a steady rate from the latest command. An engine that is
/// silent for more than about a second stops the arm.
pub struct ArmPusher {
    latest: VelocsCommand,
    age_ticks: u32,
    patience: u32,
    packets: u64,
    last_summary_ns: Option<u64>,
}

/// The mathematical content of an [`ArmPusher`].
pub struct PusherView {
    /// The command that was last sent, or came in since.
    pub latest: VelocsView,
    /// The number of ticks since a command came in.
    pub age_ticks: u32,
    /// The age up to which a command is repeated.
    pub patience: u32,
    /// The number of commands that went out since the link was last summed up.
    pub packets: u64,
    /// When the link was last summed up.
    pub last_summary_ns: Option<u64>,
}

impl View for ArmPusher {
    type V = PusherView;

    closed spec fn view(&self) -> PusherView {
        PusherView {
            latest: self.latest@,
            age_ticks: self.age_ticks,
            patience: self.patience,
            packets: self.packets,
            last_summary_ns: self.last_summary_ns,
        }
    }
}

impl PusherView {
    /// Whether the engine is silent for too long.
    pub open spec fn silent(self) -> bool {
        self.age_ticks > self.patience
    }

    /// What a tick sends.
    pub open spec fn sent(self) -> VelocsView {
        if self.silent() {
            VelocsView::rest()
        } else {
            self.latest
        }
    }

    /// The state after a tick.
    pub open spec fn ticked(self) -> PusherView {
        PusherView {
            latest: self.sent(),
            age_ticks: if self.age_ticks == u32::MAX {
                u32::MAX
            } else {
                (self.age_ticks + 1) as u32
            },
            ..self
        }
    }

    /// The state after `n` ticks without a command.
    pub open spec fn ticked_times(self, n: nat) -> PusherView
        decreases n,
    {
        if n == 0 {
            self
        } else {
            self.ticked_times((n - 1) as nat).ticked()
        }
    }

    /// The state after a command came in.
    pub open spec fn commanded(self, cmd: VelocsView) -> PusherView {
        PusherView { latest: cmd, age_ticks: 0, ..self }
    }

    /// The number of commands that went out, with one more if it did.
    pub open spec fn counted(self, ok: bool) -> u64 {
        if ok {
            (self.packets + 1) as u64
        } else {
            self.packets
        }
    }

    /// The number that is reported behind a command, where a summary is due.
    pub open spec fn summary(self, ok: bool, now_ns: u64) -> Option<u64> {
        if crate::control_interface::report::is_due(
            self.last_summary_ns,
            now_ns,
            SUMMARY_INTERVAL_NS,
        ) {
            Some(self.counted(ok))
        } else {
            None
        }
    }

    /// The state once it is known whether a command went out.
    pub open spec fn pushed(self, ok: bool, now_ns: u64) -> PusherView {
        if self.summary(ok, now_ns) is Some {
            PusherView { packets: 0, last_summary_ns: Some(now_ns), ..self }
        } else {
            PusherView { packets: self.counted(ok), ..self }
        }
    }
}

/// What a tick comes to.
#[derive(Clone, Copy, Debug)]
pub struct ArmTick {
    /// The command to send.
    pub command: VelocsCommand,
    /// Whether it is worth a line that a silent engine stops the arm.
    pub fell_silent: bool,
}

impl ArmPusher {
    /// A pusher that ticks at so many hertz and stands still.
    pub fn new(rate_hz: u32) -> (r: ArmPusher)
        ensures
            r@ == (PusherView {
                latest: VelocsView::rest(),
                age_ticks: 0,
                patience: if rate_hz == 0 {
                    1
                } else {
                    rate_hz
                },
                packets: 0,
                last_summary_ns: None,
            }),
    {
        ArmPusher {
            latest: VelocsCommand::default(),
            age_ticks: 0,
            patience: if rate_hz == 0 {
                1
            } else {
                rate_hz
            },
            packets: 0,
            last_summary_ns: None,
        }
    }

    /// The command that was last sent, or came in since.
    pub fn latest(&self) -> (r: VelocsCommand)
        ensures
            r@ == self@.latest,
    {
        self.latest
    }

    /// The number of commands that went out since the link was last summed up.
    pub fn packets(&self) -> (r: u64)
        ensures
            r == self@.packets,
    {
        self.packets
    }

    /// The command to send now. `moving` says whether the latest command moves the
    /// arm noticeably.
    pub fn tick(&mut self, moving: bool) -> (r: ArmTick)
        ensures
            r.command@ == old(self)@.sent(),
            r.fell_silent == (old(self)@.silent() && moving),
            final(self)@ == old(self)@.ticked(),
    {
        let silent = self.age_ticks > self.patience;
        if silent {
            self.latest = VelocsCommand::default();
        }
        if self.age_ticks < u32::MAX {
            self.age_ticks = self.age_ticks + 1;
        }
        ArmTick { command: self.latest, fell_silent: silent && moving }
    }

    /// Notes whether a command went out: the number of those that did since the
    /// last summary, where the next one is due.
    pub fn on_sent(&mut self, ok: bool, now_ns: u64) -> (r: Option<u64>)
        requires
            ok ==> old(self)@.packets < u64::MAX,
        ensures
            r == old(self)@.summary(ok, now_ns),
            final(self)@ == old(self)@.pushed(ok, now_ns),
    {
        if ok {
            self.packets = self.packets + 1;
        }
        if due(self.last_summary_ns, now_ns, SUMMARY_INTERVAL_NS) {
            let packets = self.packets;
            self.last_summary_ns = Some(now_ns);
            self.packets = 0;
            Some(packets)
        } else {
            None
        }
    }

    /// Takes a command over.
    pub fn on_command(&mut self, cmd: VelocsCommand)
        ensures
            final(self)@ == old(self)@.commanded(cmd@),
    {
        self.latest = cmd;
        self.age_ticks = 0;
    }
}

/// An angular velocity, each component the bits of a single.
#[derive(Clone, Copy, Debug, PartialEq, Eq, Structural)]
pub struct Orientation {
    pub yaw: u32,
    pub pitch: u32,
    pub roll: u32,
}

/// A linear velocity, each component the bits of a single.
#[derive(Clone, Copy, Debug, PartialEq, Eq, Structural)]
pub struct Vector3 {
    pub x: u32,
    pub y: u32,
    pub z: u32,
}

/// What an operator commands the arm to do.
#[derive(Clone, Copy, Debug, PartialEq, Eq, Structural)]
pub struct OvisTwist {
    pub orientation: Orientation,
    pub position: Vector3,
}

/// What the engine is asked to solve.
#[derive(Clone, Copy, Debug, PartialEq, Eq, Structural)]
pub struct Twist {
    pub orientation: Orientation,
    pub position: Vector3,
    pub mode: u32,
    pub t_us: u64,
}

/// Sends twists to the engine: where to, and in which mode it is to solve.
#[derive(Debug)]
pub struct TwistSender {
    pub address: String,
    pub mode: u32,
}

impl TwistSender {
    /// The sender for the engine of a configuration.
    pub fn connect(cfg: &IkEngineCfg) -> (r: TwistSender)
        ensures
            r.address@ == crate::text::endpoint_text(cfg.host@, cfg.twist_port),
            r.mode == mode_named(cfg.mode@).number(),
    {
        TwistSender {
            address: endpoint(cfg.host.as_str(), cfg.twist_port),
            mode: ik_mode(cfg.mode.as_str()),
        }
    }

    /// The twist that is sent for a command of the operator at a time.
    pub fn send(&self, ovis: &OvisTwist, t_us: u64) -> (r: Twist)
        ensures
            r == (Twist {
                orientation: ovis.orientation,
                position: ovis.position,
                mode: self.mode,
                t_us,
            }),
    {
        Twist { orientation: ovis.orientation, position: ovis.position, mode: self.mode, t_us }
    }
}

/// A joint of the arm that the map leaves out stands still, whatever the engine
/// commands.
pub proof fn unmapped_joints_stand_still(map: Seq<JointMapEntry>, joints: Seq<NamedFloat>, slot: int)
    requires
        0 <= slot < 6,
        forall|i: int| 0 <= i < map.len() ==> (#[trigger] map[i]).slot_of() != Some(slot),
    ensures
        mapped_velocities(map, joints).len() == 6,
        mapped_velocities(map, joints)[slot] == 0,
    decreases joints.len(),
{
    if joints.len() > 0 {
        unmapped_joints_stand_still(map, joints.drop_last(), slot);
        lemma_entries_are_in_the_map(map, joints.last().name@);
    }
}

/// What [`entry_for`] finds is in the map, under that name.
proof fn lemma_entries_are_in_the_map(map: Seq<JointMapEntry>, name: Seq<char>)
    ensures
        entry_for(map, name) is Some ==> entry_for(map, name)->0.ik_id@ == name && exists|i: int|
            0 <= i < map.len() && #[trigger] map[i] == entry_for(map, name)->0,
    decreases map.len(),
{
    if map.len() > 0 && map[0].ik_id@ != name {
        lemma_entries_are_in_the_map(map.skip(1), name);
        if entry_for(map, name) is Some {
            let i = choose|i: int|
                0 <= i < map.skip(1).len() && #[trigger] map.skip(1)[i] == entry_for(
                    map.skip(1),
                    name,
                )->0;
            assert(map[i + 1] == entry_for(map, name)->0);
        }
    } else if map.len() > 0 {
        assert(map[0] == entry_for(map, name)->0);
    }
}

/// A joint that is mapped to the arm sets the velocity of its slot, if no later
/// one is mapped there too.
pub proof fn last_joint_sets_the_velocity(
    map: Seq<JointMapEntry>,
    joints: Seq<NamedFloat>,
    k: int,
    slot: int,
)
    requires
        0 <= k < joints.len(),
        0 <= slot < 6,
        entry_for(map, joints[k].name@) is Some,
        entry_for(map, joints[k].name@)->0.slot_of() == Some(slot),
        forall|j: int|
            k < j < joints.len() ==> (entry_for(map, (#[trigger] joints[j]).name@) is Some
                ==> entry_for(map, joints[j].name@)->0.slot_of() != Some(slot)),
    ensures
        mapped_velocities(map, joints).len() == 6,
        mapped_velocities(map, joints)[slot] == directed(
            joints[k].value,
            entry_for(map, joints[k].name@)->0.invert,
        ),
    decreases joints.len(),
{
    let rest = joints.drop_last();
    lemma_six_velocities(map, rest);
    if k < rest.len() {
        assert(forall|j: int| 0 <= j < rest.len() ==> #[trigger] rest[j] == joints[j]);
        last_joint_sets_the_velocity(map, rest, k, slot);
        assert(joints[joints.len() - 1] == joints.last());
    }
}

proof fn lemma_six_velocities(map: Seq<JointMapEntry>, joints: Seq<NamedFloat>)
    ensures
        mapped_velocities(map, joints).len() == 6,
    decreases joints.len(),
{
    if joints.len() > 0 {
        lemma_six_velocities(map, joints.drop_last());
    }
}

/// Inverting a value twice changes nothing.
pub proof fn inverting_twice_changes_nothing(value: u32, invert: bool)
    ensures
        directed(directed(value, invert), invert) == value,
        directed(value, !invert) == crate::scalar::flip32(directed(value, invert)),
{
}

/// Whether two entries agree on everything but `invert`, and on that unless
/// `flipped`.
pub open spec fn same_but(a: JointMapEntry, b: JointMapEntry, flipped: bool) -> bool {
    &&& a.ik_id@ == b.ik_id@
    &&& a.kinova_idx == b.kinova_idx
    &&& a.home_deg == b.home_deg
    &&& (a.invert != b.invert) == flipped
}

/// Whether two maps of joints with distinct names differ in the direction of
/// entry `i` and in nothing else.
pub open spec fn differ_in_one_flag(m: Seq<JointMapEntry>, n: Seq<JointMapEntry>, i: int) -> bool {
    &&& 0 <= i < m.len() == n.len()
    &&& forall|j: int| 0 <= j < m.len() ==> same_but(#[trigger] m[j], n[j], j == i)
    &&& forall|j: int, k: int|
        0 <= j < k < m.len() ==> (#[trigger] m[j]).ik_id@ != (#[trigger] m[k]).ik_id@
}

/// Whether two maps differ in the direction of the joint `name` and in nothing
/// else.
spec fn differ_in_joint(m: Seq<JointMapEntry>, n: Seq<JointMapEntry>, name: Seq<char>) -> bool {
    &&& m.len() == n.len()
    &&& forall|j: int|
        0 <= j < m.len() ==> same_but(#[trigger] m[j], n[j], m[j].ik_id@ == name)
}

proof fn lemma_differ(m: Seq<JointMapEntry>, n: Seq<JointMapEntry>, i: int)
    requires
        differ_in_one_flag(m, n, i),
    ensures
        differ_in_joint(m, n, m[i].ik_id@),
{
    assert forall|j: int| 0 <= j < m.len() implies same_but(
        #[trigger] m[j],
        n[j],
        m[j].ik_id@ == m[i].ik_id@,
    ) by {
        if j < i {
            assert(m[j].ik_id@ != m[i].ik_id@);
        } else if i < j {
            assert(m[i].ik_id@ != m[j].ik_id@);
        }
    }
}

proof fn lemma_readings_differ(
    m: Seq<JointMapEntry>,
    n: Seq<JointMapEntry>,
    name: Seq<char>,
    positions: Seq<u64>,
)
    requires
        differ_in_joint(m, n, name),
    ensures
        ({
            let a = mapped_readings(m, positions);
            let b = mapped_readings(n, positions);
            &&& a.len() == b.len()
            &&& forall|k: int|
                0 <= k < a.len() ==> {
                    &&& (#[trigger] a[k]).name == b[k].name
                    &&& a[k].pos_deg == b[k].pos_deg
                    &&& a[k].home_deg == b[k].home_deg
                    &&& (a[k].invert != b[k].invert) == (a[k].name == name)
                }
            &&& forall|j: int|
                0 <= j < m.len() && (#[trigger] m[j]).slot_of() is Some ==> exists|k: int|
                    0 <= k < a.len() && (#[trigger] a[k]).name == m[j].ik_id@
        }),
    decreases m.len(),
{
    reveal(Seq::filter);
    let mapped = |e: JointMapEntry| e.slot_of() is Some;
    let read = |e: JointMapEntry| reading_of(e, positions);
    let a = mapped_readings(m, positions);
    let b = mapped_readings(n, positions);
    if m.len() > 0 {
        let (m0, n0) = (m.drop_last(), n.drop_last());
        assert forall|j: int| 0 <= j < m0.len() implies same_but(
            #[trigger] m0[j],
            n0[j],
            m0[j].ik_id@ == name,
        ) by {
            assert(m0[j] == m[j]);
        }
        lemma_readings_differ(m0, n0, name, positions);
        let (a0, b0) = (mapped_readings(m0, positions), mapped_readings(n0, positions));
        let last = m.len() - 1;
        assert(same_but(m[last], n[last], m[last].ik_id@ == name));
        if m[last].slot_of() is Some {
            assert(a =~= a0.push(read(m[last])));
            assert(b =~= b0.push(read(n[last])));
        } else {
            assert(a =~= a0);
            assert(b =~= b0);
        }
        assert forall|k: int| 0 <= k < a.len() implies {
            &&& (#[trigger] a[k]).name == b[k].name
            &&& a[k].pos_deg == b[k].pos_deg
            &&& a[k].home_deg == b[k].home_deg
            &&& (a[k].invert != b[k].invert) == (a[k].name == name)
        } by {
            if k < a0.len() {
                assert(a[k] == a0[k] && b[k] == b0[k]);
            }
        }
        assert forall|j: int| 0 <= j < m.len() && (#[trigger] m[j]).slot_of() is Some implies exists|
            k: int,
        |
            0 <= k < a.len() && (#[trigger] a[k]).name == m[j].ik_id@ by {
            if j < last {
                assert(m0[j] == m[j]);
                let k = choose|k: int| 0 <= k < a0.len() && (#[trigger] a0[k]).name == m0[j].ik_id@;
                assert(a[k] == a0[k]);
            } else {
                assert(a[a0.len() as int].name == m[j].ik_id@);
            }
        }
    }
}

/// Inverting one joint negates exactly its value on the way to the engine,
/// whatever angle position and home come to, and leaves all others alone.
pub proof fn inversion_negates_one_position(
    m: Seq<JointMapEntry>,
    n: Seq<JointMapEntry>,
    i: int,
    positions: Seq<u64>,
    angle: spec_fn(u64, u32) -> u32,
)
    requires
        differ_in_one_flag(m, n, i),
    ensures
        ({
            let a = mapped_readings(m, positions);
            let b = mapped_readings(n, positions);
            &&& a.len() == b.len()
            &&& forall|k: int|
                0 <= k < a.len() ==> {
                    &&& (#[trigger] a[k]).name == b[k].name
                    &&& b[k].sent(angle) == if a[k].name == m[i].ik_id@ {
                        crate::scalar::flip32(a[k].sent(angle))
                    } else {
                        a[k].sent(angle)
                    }
                }
            &&& m[i].slot_of() is Some ==> exists|k: int|
                0 <= k < a.len() && (#[trigger] a[k]).name == m[i].ik_id@
        }),
{
    lemma_differ(m, n, i);
    lemma_readings_differ(m, n, m[i].ik_id@, positions);
    let a = mapped_readings(m, positions);
    let b = mapped_readings(n, positions);
    assert forall|k: int| 0 <= k < a.len() implies {
        &&& (#[trigger] a[k]).name == b[k].name
        &&& b[k].sent(angle) == if a[k].name == m[i].ik_id@ {
            crate::scalar::flip32(a[k].sent(angle))
        } else {
            a[k].sent(angle)
        }
    } by {
        inverting_twice_changes_nothing(angle(a[k].pos_deg, a[k].home_deg), a[k].invert);
    }
}

/// The name of the joint of a command that sets the velocity of a slot: the last
/// one that is mapped there.
pub open spec fn decider(
    map: Seq<JointMapEntry>,
    joints: Seq<NamedFloat>,
    slot: int,
) -> Option<Seq<char>>
    decreases joints.len(),
{
    if joints.len() == 0 {
        None
    } else {
        let entry = entry_for(map, joints.last().name@);
        if entry is Some && entry->0.slot_of() == Some(slot) {
            Some(joints.last().name@)
        } else {
            decider(map, joints.drop_last(), slot)
        }
    }
}

proof fn lemma_entries_differ(
    m: Seq<JointMapEntry>,
    n: Seq<JointMapEntry>,
    target: Seq<char>,
    name: Seq<char>,
)
    requires
        differ_in_joint(m, n, target),
    ensures
        entry_for(m, name) is Some <==> entry_for(n, name) is Some,
        entry_for(m, name) is Some ==> same_but(
            entry_for(m, name)->0,
            entry_for(n, name)->0,
            name == target,
        ),
    decreases m.len(),
{
    if m.len() > 0 {
        assert(same_but(m[0], n[0], m[0].ik_id@ == target));
        if m[0].ik_id@ != name {
            let (m1, n1) = (m.skip(1), n.skip(1));
            assert forall|j: int| 0 <= j < m1.len() implies same_but(
                #[trigger] m1[j],
                n1[j],
                m1[j].ik_id@ == target,
            ) by {
                assert(m1[j] == m[j + 1]);
            }
            lemma_entries_differ(m1, n1, target, name);
        }
    }
}

proof fn lemma_velocities_differ(
    m: Seq<JointMapEntry>,
    n: Seq<JointMapEntry>,
    target: Seq<char>,
    joints: Seq<NamedFloat>,
    slot: int,
)
    requires
        differ_in_joint(m, n, target),
        0 <= slot < 6,
    ensures
        mapped_velocities(n, joints)[slot] == if decider(m, joints, slot) == Some(target) {
            crate::scalar::flip32(mapped_velocities(m, joints)[slot])
        } else {
            mapped_velocities(m, joints)[slot]
        },
    decreases joints.len(),
{
    lemma_six_velocities(m, joints);
    lemma_six_velocities(n, joints);
    if joints.len() > 0 {
        let rest = joints.drop_last();
        lemma_six_velocities(m, rest);
        lemma_six_velocities(n, rest);
        lemma_velocities_differ(m, n, target, rest, slot);
        lemma_entries_differ(m, n, target, joints.last().name@);
        let entry = entry_for(m, joints.last().name@);
        if entry is Some {
            inverting_twice_changes_nothing(joints.last().value, entry->0.invert);
        }
    }
}

/// A slot is set by a joint that the map sends there.
proof fn lemma_decider_is_mapped(map: Seq<JointMapEntry>, joints: Seq<NamedFloat>, slot: int)
    ensures
        decider(map, joints, slot) matches Some(name) ==> entry_for(map, name) is Some
            && entry_for(map, name)->0.slot_of() == Some(slot),
    decreases joints.len(),
{
    if joints.len() > 0 {
        lemma_decider_is_mapped(map, joints.drop_last(), slot);
    }
}

proof fn lemma_named_entry(m: Seq<JointMapEntry>, i: int)
    requires
        0 <= i < m.len(),
        forall|j: int, k: int|
            0 <= j < k < m.len() ==> (#[trigger] m[j]).ik_id@ != (#[trigger] m[k]).ik_id@,
    ensures
        entry_for(m, m[i].ik_id@) == Some(m[i]),
    decreases m.len(),
{
    if i > 0 {
        assert(m[0].ik_id@ != m[i].ik_id@);
        let m1 = m.skip(1);
        assert forall|j: int, k: int| 0 <= j < k < m1.len() implies (#[trigger] m1[j]).ik_id@ != (
        #[trigger] m1[k]).ik_id@ by {
            assert(m1[j] == m[j + 1] && m1[k] == m[k + 1]);
        }
        lemma_named_entry(m1, i - 1);
        assert(m1[i - 1] == m[i]);
    }
}

/// A slot that only one joint of the map is sent to is set by that joint as soon
/// as a command holds it.
proof fn lemma_only_decider(
    m: Seq<JointMapEntry>,
    joints: Seq<NamedFloat>,
    i: int,
    slot: int,
    k: int,
)
    requires
        0 <= i < m.len(),
        forall|j: int, l: int|
            0 <= j < l < m.len() ==> (#[trigger] m[j]).ik_id@ != (#[trigger] m[l]).ik_id@,
        m[i].slot_of() == Some(slot),
        forall|j: int| 0 <= j < m.len() && j != i ==> (#[trigger] m[j]).slot_of() != Some(slot),
        0 <= k < joints.len(),
        joints[k].name@ == m[i].ik_id@,
    ensures
        decider(m, joints, slot) == Some(m[i].ik_id@),
    decreases joints.len(),
{
    lemma_named_entry(m, i);
    let last = joints.last().name@;
    let entry = entry_for(m, last);
    if entry is Some && entry->0.slot_of() == Some(slot) {
        lemma_entries_are_in_the_map(m, last);
        let j = choose|j: int| 0 <= j < m.len() && #[trigger] m[j] == entry->0;
        assert(j == i);
    } else {
        assert(k < joints.len() - 1);
        assert(joints.drop_last()[k] == joints[k]);
        lemma_only_decider(m, joints.drop_last(), i, slot, k);
    }
}

/// Inverting one joint negates exactly its velocity on the way back to the arm.
/// The other slots keep theirs; so does its own where another joint sets it or
/// none does.
pub proof fn inversion_negates_one_velocity(
    m: Seq<JointMapEntry>,
    n: Seq<JointMapEntry>,
    i: int,
    joints: Seq<NamedFloat>,
    slot: int,
)
    requires
        differ_in_one_flag(m, n, i),
        0 <= slot < 6,
    ensures
        mapped_velocities(n, joints)[slot] == if decider(m, joints, slot) == Some(m[i].ik_id@) {
            crate::scalar::flip32(mapped_velocities(m, joints)[slot])
        } else {
            mapped_velocities(m, joints)[slot]
        },
        m[i].slot_of() != Some(slot) ==> mapped_velocities(n, joints)[slot] == mapped_velocities(
            m,
            joints,
        )[slot],
        m[i].slot_of() == Some(slot) && (forall|j: int|
            0 <= j < m.len() && j != i ==> (#[trigger] m[j]).slot_of() != Some(slot)) && (exists|
            k: int,
        |
            0 <= k < joints.len() && (#[trigger] joints[k]).name@ == m[i].ik_id@)
            ==> mapped_velocities(n, joints)[slot] == crate::scalar::flip32(
            mapped_velocities(m, joints)[slot],
        ),
{
    lemma_differ(m, n, i);
    lemma_velocities_differ(m, n, m[i].ik_id@, joints, slot);
    lemma_decider_is_mapped(m, joints, slot);
    lemma_named_entry(m, i);
    if m[i].slot_of() == Some(slot) && (forall|j: int|
        0 <= j < m.len() && j != i ==> (#[trigger] m[j]).slot_of() != Some(slot)) && (exists|
        k: int,
    |
        0 <= k < joints.len() && (#[trigger] joints[k]).name@ == m[i].ik_id@) {
        let k = choose|k: int|
            0 <= k < joints.len() && (#[trigger] joints[k]).name@ == m[i].ik_id@;
        lemma_only_decider(m, joints, i, slot, k);
    }
}

/// Once the engine is silent for more ticks than the pusher is patient, the arm
/// is commanded to stand still, and stays so until a command comes in.
pub proof fn silence_stops_the_arm(p: PusherView, n: nat)
    requires
        p.patience < u32::MAX,
        p.age_ticks + n > p.patience,
    ensures
        p.ticked_times(n).sent() == VelocsView::rest(),
{
    lemma_ticks_age(p, n);
}

proof fn lemma_ticks_age(p: PusherView, n: nat)
    ensures
        p.ticked_times(n).patience == p.patience,
        p.ticked_times(n).age_ticks == if p.age_ticks + n > u32::MAX {
            u32::MAX as int
        } else {
            p.age_ticks + n
        },
    decreases n,
{
    if n > 0 {
        lemma_ticks_age(p, (n - 1) as nat);
    }
}

/// A command is repeated as long as the pusher is patient.
pub proof fn commands_are_repeated(p: PusherView, cmd: VelocsView, n: nat)
    requires
        n <= p.patience,
    ensures
        p.commanded(cmd).ticked_times(n).sent() == cmd,
    decreases n,
{
    lemma_ticks_age(p.commanded(cmd), n);
    if n > 0 {
        commands_are_repeated(p, cmd, (n - 1) as nat);
    }
}

/// The joint of the arm that an entry names, counted from one. Zero stands for the
/// first one.
pub open spec fn joint_of(entry: JointMapEntry) -> int {
    if entry.kinova_idx == 0 {
        1
    } else {
        entry.kinova_idx as int
    }
}

/// The first entry of the map with a name, in place `i`, decides about that joint:
/// as the joint of the arm that it names, in the direction that it gives. A joint of
/// a command that is mapped to joint `k` of the arm sets the velocity that is sent
/// under the key of that joint, unless a later one of the command is mapped there
/// too. Where it is inverted, that is the velocity of the same magnitude in the
/// other direction.
pub proof fn commanded_joints_move_their_arm_joint(
    map: Seq<JointMapEntry>,
    cmd: JointCommand,
    i: int,
    j: int,
    sent: Seq<(String, u32)>,
    out: VelocsCommand,
)
    requires
        cmd.mode == 0,
        0 <= i < map.len(),
        1 <= joint_of(map[i]) <= 6,
        0 <= j < cmd.joints@.len(),
        cmd.joints@[j].name@ == map[i].ik_id@,
        forall|k: int| 0 <= k < i ==> (#[trigger] map[k]).ik_id@ != map[i].ik_id@,
        forall|k: int, e: int|
            j < k < cmd.joints@.len() && 0 <= e < map.len() && (#[trigger] cmd.joints@[k]).name@ == (
            #[trigger] map[e]).ik_id@ ==> joint_of(map[e]) != joint_of(map[i]),
        mapped_command(map, cmd) == Some(out@),
        field_texts(sent) == Seq::new(
            6,
            |n: int|
                (
                    crate::control_interface::state::joint_key(n + 1, "_vel"@),
                    out@.vel_rad_s[n],
                ),
        ),
    ensures
        ({
            let value = cmd.joints@[j].value;
            let field = sent[joint_of(map[i]) - 1];
            &&& sent.len() == 6
            &&& field.0@ == "joint_"@ + seq![('0' as u32 + joint_of(map[i])) as char] + "_vel"@
            &&& !map[i].invert ==> field.1 == value
            &&& map[i].invert ==> field.1 % 0x8000_0000 == value % 0x8000_0000 && field.1 != value
        }),
{
    let name = map[i].ik_id@;
    let slot = joint_of(map[i]) - 1;
    lemma_first_entry(map, i);
    crate::control_interface::config::joints_count_from_one(map[i]);
    assert forall|k: int|
        j < k < cmd.joints@.len() && entry_for(map, (#[trigger] cmd.joints@[k]).name@)
            is Some implies entry_for(map, cmd.joints@[k].name@)->0.slot_of() != Some(slot) by {
        let other = entry_for(map, cmd.joints@[k].name@);
        lemma_entries_are_in_the_map(map, cmd.joints@[k].name@);
        let e = choose|e: int| 0 <= e < map.len() && #[trigger] map[e] == other->0;
        assert(cmd.joints@[k].name@ == map[e].ik_id@);
        crate::control_interface::config::joints_count_from_one(map[e]);
    }
    last_joint_sets_the_velocity(map, cmd.joints@, j, slot);
    assert(field_texts(sent).len() == 6);
    assert(field_texts(sent)[slot] == (sent[slot].0@, sent[slot].1));
}

/// The first entry with a name is the one that is found.
proof fn lemma_first_entry(map: Seq<JointMapEntry>, i: int)
    requires
        0 <= i < map.len(),
        forall|k: int| 0 <= k < i ==> (#[trigger] map[k]).ik_id@ != map[i].ik_id@,
    ensures
        entry_for(map, map[i].ik_id@) == Some(map[i]),
    decreases i,
{
    if i > 0 {
        assert(map[0].ik_id@ != map[i].ik_id@);
        let rest = map.skip(1);
        assert forall|k: int| 0 <= k < i - 1 implies (#[trigger] rest[k]).ik_id@ != rest[
            i - 1
        ].ik_id@ by {
            assert(rest[k] == map[k + 1]);
        }
        lemma_first_entry(rest, i - 1);
        assert(rest[i - 1] == map[i]);
    }
}

/// A joint of the arm to which no joint of a command is mapped is sent a velocity
/// of zero.
pub proof fn uncommanded_joints_are_sent_zero(
    map: Seq<JointMapEntry>,
    cmd: JointCommand,
    joint: int,
    out: VelocsView,
)
    requires
        1 <= joint <= 6,
        forall|k: int, e: int|
            0 <= k < cmd.joints@.len() && 0 <= e < map.len() && (#[trigger] cmd.joints@[k]).name@ == (
            #[trigger] map[e]).ik_id@ ==> joint_of(map[e]) != joint,
        mapped_command(map, cmd) == Some(out),
    ensures
        out.vel_rad_s.len() == 6,
        out.vel_rad_s[joint - 1] == 0,
{
    lemma_untouched(map, cmd.joints@, joint);
}

proof fn lemma_untouched(map: Seq<JointMapEntry>, joints: Seq<NamedFloat>, joint: int)
    requires
        1 <= joint <= 6,
        forall|k: int, e: int|
            0 <= k < joints.len() && 0 <= e < map.len() && (#[trigger] joints[k]).name@ == (
            #[trigger] map[e]).ik_id@ ==> joint_of(map[e]) != joint,
    ensures
        mapped_velocities(map, joints).len() == 6,
        mapped_velocities(map, joints)[joint - 1] == 0,
    decreases joints.len(),
{
    if joints.len() > 0 {
        let rest = joints.drop_last();
        assert forall|k: int, e: int|
            0 <= k < rest.len() && 0 <= e < map.len() && (#[trigger] rest[k]).name@ == (
            #[trigger] map[e]).ik_id@ implies joint_of(map[e]) != joint by {
            assert(rest[k] == joints[k]);
        }
        lemma_untouched(map, rest, joint);
        let entry = entry_for(map, joints.last().name@);
        if entry is Some {
            lemma_entries_are_in_the_map(map, joints.last().name@);
            let e = choose|e: int| 0 <= e < map.len() && #[trigger] map[e] == entry->0;
            assert(joints[joints.len() - 1].name@ == map[e].ik_id@);
            crate::control_interface::config::joints_count_from_one(map[e]);
        }
    }
}

/// Only velocities are acted upon: a command of resolved rate (mode 0) comes to
/// something, with its mode, residual and convergence, and no other one does.
pub proof fn only_velocities_are_acted_upon(map: Seq<JointMapEntry>, cmd: JointCommand)
    ensures
        mapped_command(map, cmd) is Some <==> cmd.mode == 0,
        mapped_command(map, cmd) matches Some(out) ==> out.mode == cmd.mode && out.residual
            == cmd.residual && out.converged == cmd.converged && out.vel_rad_s.len() == 6,
{
    lemma_six_velocities(map, cmd.joints@);
}

/// For every entry of the map that names a joint of the arm there is a reading, in
/// the order of the map and none besides: with the name of the entry, the position
/// of its joint, and the home and the direction of the entry.
pub proof fn readings_are_those_of_the_arm_joints(map: Seq<JointMapEntry>, positions: Seq<u64>)
    ensures
        map.len() == 0 ==> mapped_readings(map, positions).len() == 0,
        map.len() > 0 && joint_of(map.last()) <= 6 ==> {
            &&& mapped_readings(map, positions).drop_last() == mapped_readings(
                map.drop_last(),
                positions,
            )
            &&& mapped_readings(map, positions).len() > 0
            &&& mapped_readings(map, positions).last() == (ReadingView {
                name: map.last().ik_id@,
                pos_deg: positions[joint_of(map.last()) - 1],
                home_deg: map.last().home_deg,
                invert: map.last().invert,
            })
        },
        map.len() > 0 && joint_of(map.last()) > 6 ==> mapped_readings(map, positions)
            == mapped_readings(map.drop_last(), positions),
{
    reveal(Seq::filter);
    let mapped = |e: JointMapEntry| e.slot_of() is Some;
    let read = |e: JointMapEntry| reading_of(e, positions);
    if map.len() > 0 {
        crate::control_interface::config::joints_count_from_one(map.last());
        let before = map.drop_last().filter(mapped);
        if joint_of(map.last()) <= 6 {
            assert(map.filter(mapped) == before.push(map.last()));
            assert(before.push(map.last()).map_values(read).drop_last() =~= before.map_values(
                read,
            ));
        }
    }
}

/// A value is sent in the direction of its joint: as it is, or, where the joint is
/// inverted, with the same magnitude and the other sign.
pub proof fn inversion_turns_values_round(value: u32)
    ensures
        directed(value, false) == value,
        directed(value, true) % 0x8000_0000 == value % 0x8000_0000,
        directed(value, true) != value,
{
}

/// A command to stand still moves no joint.
pub proof fn resting_moves_no_joint(joint: int)
    requires
        0 <= joint < 6,
    ensures
        VelocsView::rest().vel_rad_s.len() == 6,
        VelocsView::rest().vel_rad_s[joint] == 0,
        VelocsView::rest().mode == 0,
        VelocsView::rest().residual == 0,
        !VelocsView::rest().converged,
{
}

/// From the moment at which more ticks passed without a command than the arm ticks
/// in a second, no joint is sent a velocity, until a command comes in, which is sent
/// as it is.
pub proof fn silence_sends_velocities_of_zero(
    p: PusherView,
    cmd: VelocsView,
    n: nat,
    later: VelocsView,
    joint: int,
)
    requires
        p.patience < u32::MAX,
        n > p.patience,
        0 <= joint < 6,
    ensures
        p.commanded(cmd).ticked_times(n).sent().vel_rad_s[joint] == 0,
        p.commanded(cmd).ticked_times(n).commanded(later).sent() == later,
{
    silence_stops_the_arm(p.commanded(cmd), n);
}

/// At most eight commands wait. One more makes the one go that waits for longest,
/// and only where that many wait already; it is itself the last to be taken.
pub proof fn eight_commands_wait(q: Seq<VelocsCommand>, cmd: VelocsCommand)
    ensures
        queued(q, cmd).last() == cmd,
        q.len() < 8 ==> queued(q, cmd).drop_last() == q,
        q.len() == 8 ==> queued(q, cmd).len() == 8 && queued(q, cmd).drop_last() == q.skip(1),
{
    assert(q.push(cmd).drop_last() =~= q);
    assert(q.skip(1).push(cmd).drop_last() =~= q.skip(1));
}

/// The two modes have the numbers 0 and 1. A name stands for positions exactly if
/// each of its letters is that of `position_ik`, or the upper case one of it.
pub proof fn modes_are_named_in_any_case(s: Seq<char>)
    ensures
        IkMode::ResolvedRate.number() == 0,
        IkMode::PositionIk.number() == 1,
        mode_named(s) == IkMode::PositionIk || mode_named(s) == IkMode::ResolvedRate,
        mode_named(s) == IkMode::PositionIk <==> {
            &&& s.len() == "position_ik"@.len()
            &&& forall|i: int|
                0 <= i < s.len() ==> #[trigger] s[i] == "position_ik"@[i] || ('A' <= s[i] <= 'Z'
                    && s[i] as int + 32 == "position_ik"@[i] as int)
        },
{
    reveal_strlit("position_ik");
    let name = "position_ik"@;
    if s.len() == name.len() {
        assert forall|i: int| 0 <= i < s.len() implies (lower_code(#[trigger] s[i])
            == name[i] as int <==> s[i] == name[i] || ('A' <= s[i] <= 'Z' && s[i] as int + 32
            == name[i] as int)) by {
            assert(!('A' <= name[i] <= 'Z'));
        }
        if lowers_to(s, name) {
            assert forall|i: int| 0 <= i < s.len() implies #[trigger] s[i] == name[i] || ('A'
                <= s[i] <= 'Z' && s[i] as int + 32 == name[i] as int) by {
                assert(lower_code(s[i]) == name[i] as int);
            }
        }
    }
}

/// What is counted and the peak between two summaries go into the next one, with
/// the command that brings it. It comes with the first command, and then with the
/// first one that is at least a second later. Behind it the count starts again.
pub proof fn commands_are_summed_up_every_second(
    l: ListenerView,
    vel: Seq<u32>,
    now_ns: u64,
)
    requires
        l.frames < u64::MAX,
    ensures
        l.summary(vel, now_ns) is Some <==> l.last_summary_ns is None
            || l.last_summary_ns->0 + 1_000_000_000 <= now_ns,
        l.summary(vel, now_ns) matches Some(s) ==> {
            &&& s.frames == l.frames + 1
            &&& l.after(vel, now_ns) == (ListenerView {
                frames: 0,
                peak_rad_s: 0,
                last_summary_ns: Some(now_ns),
            })
        },
        l.summary(vel, now_ns) is None ==> {
            &&& l.after(vel, now_ns).frames == l.frames + 1
            &&& l.after(vel, now_ns).last_summary_ns == l.last_summary_ns
        },
        ({
            let peak = match l.summary(vel, now_ns) {
                Some(s) => s.peak_rad_s,
                None => l.after(vel, now_ns).peak_rad_s,
            };
            &&& l.peak_rad_s <= peak
            &&& forall|i: int|
                0 <= i < vel.len() && (#[trigger] vel[i]) % 0x8000_0000 <= 0x7F80_0000 ==> vel[i]
                    % 0x8000_0000 <= peak
            &&& peak == l.peak_rad_s || exists|i: int|
                0 <= i < vel.len() && #[trigger] vel[i] % 0x8000_0000 == peak
        }),
{
    crate::control_interface::report::peaks_are_reached(l.peak_rad_s, vel);
}

/// The commands that went out are counted, and reported with the first of them and
/// then every second; behind a report the count starts again. Nothing of what is
/// sent depends on it.
pub proof fn sent_commands_are_summed_up_every_second(p: PusherView, ok: bool, now_ns: u64)
    requires
        p.packets < u64::MAX,
    ensures
        ({
            let count = p.packets + if ok {
                1int
            } else {
                0int
            };
            let due = p.last_summary_ns is None || p.last_summary_ns->0 + 1_000_000_000 <= now_ns;
            &&& due ==> p.summary(ok, now_ns) == Some(count as u64) && p.pushed(ok, now_ns) == (
            PusherView { packets: 0, last_summary_ns: Some(now_ns), ..p })
            &&& !due ==> p.summary(ok, now_ns) is None && p.pushed(ok, now_ns) == (PusherView {
                packets: count as u64,
                ..p
            })
        }),
{
}

/// The first reading that went out is worth a line, and so are three later ones.
pub proof fn four_readings_are_worth_a_line(n: u64)
    ensures
        is_milestone(n) <==> n == 1 || n == 100 || n == 1_000 || n == 10_000,
{
}

} // verus!
