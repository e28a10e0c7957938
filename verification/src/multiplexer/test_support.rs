//! The end-to-end suite: what it requires of a configuration, what its senders
//! send and when, and how it judges what came out.
//!
//! Times are nanoseconds of a monotonic clock.
use vstd::prelude::*;

verus! {

/// One packet as an output received it.
#[derive(Clone, Copy, Debug, PartialEq, Eq, Structural)]
pub struct Received {
    pub priority: Option<u16>,
    pub at: u128,
    pub decoded_ok: bool,
}

/// How many packets came from whom.
#[derive(Clone, Copy, Debug, PartialEq, Eq, Structural)]
pub struct Counts {
    pub prio1: u64,
    pub prio2: u64,
    pub other: u64,
    pub bad: u64,
}

impl Counts {
    /// Nothing was received.
    pub open spec fn none() -> Counts {
        Counts { prio1: 0, prio2: 0, other: 0, bad: 0 }
    }
}

impl Default for Counts {
    fn default() -> (r: Counts)
        ensures
            r == Counts::none(),
    {
        Counts { prio1: 0, prio2: 0, other: 0, bad: 0 }
    }
}

/// Who sent a packet.
#[derive(Clone, Copy, Debug, PartialEq, Eq, Structural)]
pub enum Sender {
    Prio1,
    Prio2,
    Other,
    /// What could not be decoded.
    Bad,
}

/// Who sent a packet.
pub open spec fn sender_of(e: Received) -> Sender {
    if !e.decoded_ok {
        Sender::Bad
    } else if e.priority == Some(1u16) {
        Sender::Prio1
    } else if e.priority == Some(2u16) {
        Sender::Prio2
    } else {
        Sender::Other
    }
}

/// How many packets of a log are of `sender` and fall between two times.
pub open spec fn counted(log: Seq<Received>, from: u128, to: u128, sender: Sender) -> nat
    decreases log.len(),
{
    if log.len() == 0 {
        0
    } else {
        let e = log.last();
        counted(log.drop_last(), from, to, sender) + if from <= e.at <= to && sender_of(e) == sender {
            1nat
        } else {
            0nat
        }
    }
}

/// How many packets of all logs are of `sender` and fall between two times.
pub open spec fn counted_all(logs: Seq<Seq<Received>>, from: u128, to: u128, sender: Sender) -> nat
    decreases logs.len(),
{
    if logs.len() == 0 {
        0
    } else {
        counted_all(logs.drop_last(), from, to, sender) + counted(logs.last(), from, to, sender)
    }
}

/// The length of all logs together.
pub open spec fn total_len(logs: Seq<Seq<Received>>) -> nat
    decreases logs.len(),
{
    if logs.len() == 0 {
        0
    } else {
        total_len(logs.drop_last()) + logs.last().len()
    }
}

/// The contents of logs.
pub open spec fn log_views(logs: Seq<Vec<Received>>) -> Seq<Seq<Received>> {
    Seq::new(logs.len(), |i: int| logs[i]@)
}

/// The number that `c` has for `sender`.
pub open spec fn count_of(c: Counts, sender: Sender) -> u64 {
    match sender {
        Sender::Prio1 => c.prio1,
        Sender::Prio2 => c.prio2,
        Sender::Other => c.other,
        Sender::Bad => c.bad,
    }
}

proof fn lemma_counts_fit(logs: Seq<Seq<Received>>, from: u128, to: u128, sender: Sender)
    ensures
        counted_all(logs, from, to, sender) <= total_len(logs),
    decreases logs.len(),
{
    if logs.len() > 0 {
        lemma_counts_fit(logs.drop_last(), from, to, sender);
        lemma_count_fits(logs.last(), from, to, sender);
    }
}

proof fn lemma_count_fits(log: Seq<Received>, from: u128, to: u128, sender: Sender)
    ensures
        counted(log, from, to, sender) <= log.len(),
    decreases log.len(),
{
    if log.len() > 0 {
        lemma_count_fits(log.drop_last(), from, to, sender);
    }
}

proof fn lemma_total_grows(logs: Seq<Seq<Received>>, n: int)
    requires
        0 <= n <= logs.len(),
    ensures
        total_len(logs.take(n)) <= total_len(logs),
    decreases logs.len() - n,
{
    if n < logs.len() {
        lemma_total_grows(logs, n + 1);
        assert(logs.take(n + 1).drop_last() =~= logs.take(n));
    } else {
        assert(logs.take(n) =~= logs);
    }
}

/// One more packet of `sender`.
fn count_one(c: Counts, e: &Received) -> (r: Counts)
    requires
        count_of(c, sender_of(*e)) < u64::MAX,
    ensures
        forall|s: Sender| #[trigger]
            count_of(r, s) == count_of(c, s) + if s == sender_of(*e) {
                1int
            } else {
                0int
            },
{
    let mut r = c;
    if !e.decoded_ok {
        r.bad = r.bad + 1;
    } else {
        match e.priority {
            Some(1) => {
                r.prio1 = r.prio1 + 1;
            },
            Some(2) => {
                r.prio2 = r.prio2 + 1;
            },
            _ => {
                r.other = r.other + 1;
            },
        }
    }
    r
}

/// The packets of all logs that fall between two times, by sender.
pub open spec fn tallied(logs: Seq<Seq<Received>>, from: u128, to: u128) -> Counts {
    Counts {
        prio1: counted_all(logs, from, to, Sender::Prio1) as u64,
        prio2: counted_all(logs, from, to, Sender::Prio2) as u64,
        other: counted_all(logs, from, to, Sender::Other) as u64,
        bad: counted_all(logs, from, to, Sender::Bad) as u64,
    }
}

/// Counts the packets that were received between two times, both included.
pub fn tally(logs: &Vec<Vec<Received>>, from: u128, to: u128) -> (r: Counts)
    requires
        total_len(log_views(logs@)) <= u64::MAX,
    ensures
        forall|s: Sender| #[trigger]
            count_of(r, s) == counted_all(log_views(logs@), from, to, s),
        r == tallied(log_views(logs@), from, to),
{
    let mut c = Counts::default();
    let ghost views = log_views(logs@);
    assert(views.take(0) =~= Seq::<Seq<Received>>::empty());
    for i in 0..logs.len()
        invariant
            views == log_views(logs@),
            total_len(views) <= u64::MAX,
            forall|s: Sender| #[trigger]
                count_of(c, s) == counted_all(views.take(i as int), from, to, s),
    {
        let log = &logs[i];
        let ghost sofar = c;
        proof {
            assert(views.take(i + 1).drop_last() =~= views.take(i as int));
            assert(views.take(i + 1).last() == log@);
            lemma_total_grows(views, i + 1);
            assert(log@.take(0) =~= Seq::<Received>::empty());
        }
        for k in 0..log.len()
            invariant
                i < logs@.len(),
                views == log_views(logs@),
                log@ == views[i as int],
                total_len(views.take(i + 1)) <= u64::MAX,
                views.take(i + 1).drop_last() == views.take(i as int),
                views.take(i + 1).last() == log@,
                forall|s: Sender| #[trigger]
                    count_of(sofar, s) == counted_all(views.take(i as int), from, to, s),
                forall|s: Sender| #[trigger]
                    count_of(c, s) == count_of(sofar, s) + counted(log@.take(k as int), from, to, s),
        {
            let e = &log[k];
            let ghost before = c;
            proof {
                assert(log@.take(k + 1).drop_last() =~= log@.take(k as int));
                assert(log@.take(k + 1).last() == *e);
                let s = sender_of(*e);
                lemma_counts_fit(views.take(i as int), from, to, s);
                lemma_count_fits(log@.take(k as int), from, to, s);
            }
            if !(e.at < from || e.at > to) {
                c = count_one(c, e);
            }
        }
        assert(log@.take(log@.len() as int) =~= log@);
    }
    assert(views.take(views.len() as int) =~= views);
    proof {
        assert(count_of(c, Sender::Prio1) == counted_all(views, from, to, Sender::Prio1));
        assert(count_of(c, Sender::Prio2) == counted_all(views, from, to, Sender::Prio2));
        assert(count_of(c, Sender::Other) == counted_all(views, from, to, Sender::Other));
        assert(count_of(c, Sender::Bad) == counted_all(views, from, to, Sender::Bad));
    }
    c
}

/// The word for a verdict.
pub fn pf(b: bool) -> (r: &'static str)
    ensures
        r@ == if b {
            "PASS"@
        } else {
            "FAIL"@
        },
{
    if b {
        "PASS"
    } else {
        "FAIL"
    }
}

/// The exit code of a suite that cannot run.
pub const NOT_RUNNABLE: i32 = 2;

/// Why a suite cannot run.
#[derive(Clone, Copy, Debug, PartialEq, Eq, Structural)]
pub enum SetupError {
    /// There is no input with priority 1 or none with priority 2.
    MissingPriority,
    /// There is no output.
    NoOutput,
}

/// The first input with a priority.
pub open spec fn is_first_of(priorities: Seq<u16>, priority: u16, i: int) -> bool {
    &&& 0 <= i < priorities.len()
    &&& priorities[i] == priority
    &&& forall|j: int| 0 <= j < i ==> #[trigger] priorities[j] != priority
}

/// Finds the first input with a priority.
fn first_of(priorities: &Vec<u16>, priority: u16) -> (r: Option<usize>)
    ensures
        match r {
            Some(i) => is_first_of(priorities@, priority, i as int),
            None => !priorities@.contains(priority),
        },
{
    for i in 0..priorities.len()
        invariant
            forall|j: int| 0 <= j < i ==> #[trigger] priorities@[j] != priority,
    {
        if priorities[i] == priority {
            return Some(i);
        }
    }
    None
}

/// Whether a suite can run, and on which inputs: the first one with priority 1
/// and the first one with priority 2.
pub fn suite_inputs(priorities: &Vec<u16>, outputs: usize) -> (r: Result<(usize, usize), SetupError>)
    ensures
        match r {
            Ok((first, second)) => {
                &&& is_first_of(priorities@, 1, first as int)
                &&& is_first_of(priorities@, 2, second as int)
                &&& outputs > 0
            },
            Err(SetupError::MissingPriority) => !(priorities@.contains(1u16)
                && priorities@.contains(2u16)),
            Err(SetupError::NoOutput) => priorities@.contains(1u16) && priorities@.contains(2u16)
                && outputs == 0,
        },
{
    match (first_of(priorities, 1), first_of(priorities, 2)) {
        (Some(first), Some(second)) => {
            assert(priorities@[first as int] == 1);
            assert(priorities@[second as int] == 2);
            if outputs == 0 {
                Err(SetupError::NoOutput)
            } else {
                Ok((first, second))
            }
        },
        _ => Err(SetupError::MissingPriority),
    }
}

/// How long the multiplexer has to come up, in milliseconds.
pub const STARTUP_MS: u128 = 200;

/// How long the senders of the first two scenarios send, in milliseconds.
pub const STREAM_MS: u128 = 1_500;

/// How long the first sender of the third scenario sends, in milliseconds.
pub const PRIO1_WINDOW_MS: u128 = 800;

/// How long the second sender goes on once the first one is stale, in
/// milliseconds.
pub const TAKEOVER_MS: u128 = 700;

/// What the third scenario allows for beyond the staleness before it looks, in
/// milliseconds.
pub const TAKEOVER_SLACK_MS: u128 = 150;

/// How long a scenario waits before it looks, and beyond the staleness before
/// the next one starts, in milliseconds.
pub const SETTLE_MS: u128 = 100;

/// The time between two packets of a sender, in nanoseconds.
pub const SEND_PERIOD_NS: u128 = 20_000_000;

/// What a sender does: on the input with a priority it sends for so many
/// milliseconds, with or without junk mixed in.
#[derive(Clone, Copy, Debug, PartialEq, Eq, Structural)]
pub struct SenderPlan {
    pub priority: u16,
    pub for_ms: u128,
    pub mix_junk: bool,
}

/// A scenario: its senders run side by side; it settles once they are done, and
/// then is quiet for a while.
#[derive(Debug)]
pub struct Scenario {
    pub senders: Vec<SenderPlan>,
    pub settle_ms: u128,
    pub quiet_ms: u128,
}

/// The senders of the three scenarios: priority, junk, staleness.
pub open spec fn planned_senders(staleness_ms: u64) -> Seq<Seq<SenderPlan>> {
    seq![
        seq![
            SenderPlan { priority: 1, for_ms: STREAM_MS, mix_junk: false },
            SenderPlan { priority: 2, for_ms: STREAM_MS, mix_junk: false },
        ],
        seq![SenderPlan { priority: 1, for_ms: STREAM_MS, mix_junk: true }],
        seq![
            SenderPlan { priority: 1, for_ms: PRIO1_WINDOW_MS, mix_junk: false },
            SenderPlan {
                priority: 2,
                for_ms: (PRIO1_WINDOW_MS + staleness_ms + TAKEOVER_MS) as u128,
                mix_junk: false,
            },
        ],
    ]
}

/// Whether `scenario` has these senders and waits until the packets before it
/// are stale.
pub open spec fn is_scenario(scenario: Scenario, senders: Seq<SenderPlan>, staleness_ms: u64) -> bool {
    &&& scenario.senders@ == senders
    &&& scenario.settle_ms == SETTLE_MS
    &&& scenario.quiet_ms == staleness_ms + SETTLE_MS
}

/// The scenarios of the suite.
pub fn suite_plan(staleness_ms: u64) -> (r: Vec<Scenario>)
    ensures
        r@.len() == 3,
        forall|i: int|
            0 <= i < 3 ==> is_scenario(
                #[trigger] r@[i],
                planned_senders(staleness_ms)[i],
                staleness_ms,
            ),
{
    let quiet_ms = staleness_ms as u128 + SETTLE_MS;
    let a = vec![
        SenderPlan { priority: 1, for_ms: STREAM_MS, mix_junk: false },
        SenderPlan { priority: 2, for_ms: STREAM_MS, mix_junk: false },
    ];
    let b = vec![SenderPlan { priority: 1, for_ms: STREAM_MS, mix_junk: true }];
    let c = vec![
        SenderPlan { priority: 1, for_ms: PRIO1_WINDOW_MS, mix_junk: false },
        SenderPlan {
            priority: 2,
            for_ms: PRIO1_WINDOW_MS + staleness_ms as u128 + TAKEOVER_MS,
            mix_junk: false,
        },
    ];
    let ghost planned = planned_senders(staleness_ms);
    assert(a@ =~= planned[0]);
    assert(b@ =~= planned[1]);
    assert(c@ =~= planned[2]);
    let mut out: Vec<Scenario> = Vec::new();
    out.push(Scenario { senders: a, settle_ms: SETTLE_MS, quiet_ms });
    out.push(Scenario { senders: b, settle_ms: SETTLE_MS, quiet_ms });
    out.push(Scenario { senders: c, settle_ms: SETTLE_MS, quiet_ms });
    out
}

/// The windows of the third scenario.
#[derive(Clone, Copy, Debug, PartialEq, Eq, Structural)]
pub struct FailoverWindows {
    /// When the first sender stops: until then only it may be seen.
    pub early_to: u128,
    /// From when on only the second sender may be seen.
    pub late_from: u128,
}

/// So many milliseconds in nanoseconds.
pub open spec fn nanos(ms: int) -> int {
    ms * 1_000_000
}

/// The windows of the third scenario, where it starts at `start`.
pub fn failover_windows(start: u128, staleness_ms: u64) -> (r: FailoverWindows)
    requires
        start + nanos(PRIO1_WINDOW_MS + staleness_ms + TAKEOVER_SLACK_MS) <= u128::MAX,
    ensures
        r.early_to == start + nanos(PRIO1_WINDOW_MS as int),
        r.late_from == r.early_to + nanos(staleness_ms + TAKEOVER_SLACK_MS),
{
    let early_to = start + PRIO1_WINDOW_MS * 1_000_000;
    FailoverWindows {
        early_to,
        late_from: early_to + (staleness_ms as u128 + TAKEOVER_SLACK_MS) * 1_000_000,
    }
}

/// What the suite found.
#[derive(Clone, Copy, Debug, PartialEq, Eq, Structural)]
pub struct Verdict {
    pub priority: bool,
    pub junk: bool,
    pub staleness: bool,
}

/// Priority wins: the first sender is seen and the second is not.
pub open spec fn priority_held(c: Counts) -> bool {
    c.prio1 > 0 && c.prio2 == 0
}

/// Junk is dropped: the sender is seen and nothing fails to decode.
pub open spec fn junk_dropped(c: Counts) -> bool {
    c.bad == 0 && c.prio1 > 0
}

/// Staleness fails over: first only the one sender is seen, then only the other.
pub open spec fn failed_over(early: Counts, late: Counts) -> bool {
    early.prio1 > 0 && early.prio2 == 0 && late.prio2 > 0 && late.prio1 == 0
}

/// The verdict on what the scenarios counted.
pub open spec fn verdict_on(a: Counts, b: Counts, early: Counts, late: Counts) -> Verdict {
    Verdict {
        priority: priority_held(a),
        junk: junk_dropped(b),
        staleness: failed_over(early, late),
    }
}

/// The exit code: zero if everything passed, else one.
pub open spec fn code_of(v: Verdict) -> i32 {
    if v.priority && v.junk && v.staleness {
        0
    } else {
        1
    }
}

/// Judges what the scenarios counted.
pub fn judge(a: &Counts, b: &Counts, early: &Counts, late: &Counts) -> (r: Verdict)
    ensures
        r == verdict_on(*a, *b, *early, *late),
{
    Verdict {
        priority: a.prio1 > 0 && a.prio2 == 0,
        junk: b.bad == 0 && b.prio1 > 0,
        staleness: early.prio1 > 0 && early.prio2 == 0 && late.prio2 > 0 && late.prio1 == 0,
    }
}

/// The exit code of a suite: zero if everything passed, else one.
pub fn exit_code(v: &Verdict) -> (r: i32)
    ensures
        r == code_of(*v),
{
    if v.priority && v.junk && v.staleness {
        0
    } else {
        1
    }
}

/// When a scenario started, and when it was looked at.
#[derive(Clone, Copy, Debug, PartialEq, Eq, Structural)]
pub struct ScenarioTimes {
    pub start: u128,
    pub end: u128,
}

/// What a suite came to.
#[derive(Clone, Copy, Debug, PartialEq, Eq, Structural)]
pub struct SuiteResult {
    /// What was counted in the first scenario.
    pub a: Counts,
    /// What was counted in the second scenario.
    pub b: Counts,
    /// What was counted in the third scenario while the first sender sent.
    pub early: Counts,
    /// What was counted in it once that sender was stale.
    pub late: Counts,
    pub verdict: Verdict,
    pub code: i32,
}

/// From when on only the second sender of the third scenario may be seen, where
/// it started at `start`.
pub open spec fn late_from(start: u128, staleness_ms: u64) -> int {
    start + nanos(PRIO1_WINDOW_MS as int) + nanos(staleness_ms + TAKEOVER_SLACK_MS)
}

/// What a suite comes to: the first two scenarios are counted from their start
/// until they are looked at, the third one until its first sender stops and then
/// from where only the second one may be seen.
pub open spec fn suite_outcome(
    logs: Seq<Seq<Received>>,
    a: ScenarioTimes,
    b: ScenarioTimes,
    c: ScenarioTimes,
    staleness_ms: u64,
) -> SuiteResult {
    let counts_a = tallied(logs, a.start, a.end);
    let counts_b = tallied(logs, b.start, b.end);
    let early = tallied(
        logs,
        c.start,
        (c.start + nanos(PRIO1_WINDOW_MS as int)) as u128,
    );
    let late = tallied(logs, late_from(c.start, staleness_ms) as u128, c.end);
    let verdict = verdict_on(counts_a, counts_b, early, late);
    SuiteResult { a: counts_a, b: counts_b, early, late, verdict, code: code_of(verdict) }
}

/// Judges a suite by what its outputs received.
pub fn suite_result(
    logs: &Vec<Vec<Received>>,
    a: ScenarioTimes,
    b: ScenarioTimes,
    c: ScenarioTimes,
    staleness_ms: u64,
) -> (r: SuiteResult)
    requires
        total_len(log_views(logs@)) <= u64::MAX,
        late_from(c.start, staleness_ms) <= u128::MAX,
    ensures
        r == suite_outcome(log_views(logs@), a, b, c, staleness_ms),
{
    let counts_a = tally(logs, a.start, a.end);
    let counts_b = tally(logs, b.start, b.end);
    let windows = failover_windows(c.start, staleness_ms);
    let early = tally(logs, c.start, windows.early_to);
    let late = tally(logs, windows.late_from, c.end);
    let verdict = judge(&counts_a, &counts_b, &early, &late);
    let code = exit_code(&verdict);
    SuiteResult { a: counts_a, b: counts_b, early, late, verdict, code }
}

/// Whether the packet that counts `i` from zero is junk: one in five, if junk is
/// mixed in at all.
pub fn is_junk(mix_junk: bool, i: u64) -> (r: bool)
    ensures
        r == (mix_junk && i % 5 == 0),
{
    mix_junk && i % 5 == 0
}

/// When a sender sends next, and how long it waits until then: a period behind
/// the last time, or at once if that is past.
pub fn pace(next: u128, period: u128, now: u128) -> (r: (u128, u128))
    requires
        next + period <= u128::MAX,
    ensures
        r == if next + period > now {
            ((next + period) as u128, (next + period - now) as u128)
        } else {
            (now, 0u128)
        },
{
    let due = next + period;
    if due > now {
        (due, due - now)
    } else {
        (now, 0)
    }
}

/// No packet counts twice: what is counted of a log is as much as it holds
/// between the two times.
pub proof fn every_packet_counts_once(log: Seq<Received>, from: u128, to: u128)
    ensures
        counted(log, from, to, Sender::Prio1) + counted(log, from, to, Sender::Prio2) + counted(
            log,
            from,
            to,
            Sender::Other,
        ) + counted(log, from, to, Sender::Bad) == log.filter(
            |e: Received| from <= e.at <= to,
        ).len(),
    decreases log.len(),
{
    reveal(Seq::filter);
    if log.len() > 0 {
        every_packet_counts_once(log.drop_last(), from, to);
    }
}

/// The second sender of the third scenario is still sending when only it may be
/// seen, and the first one has been silent for longer than its packets are
/// fresh.
pub proof fn takeover_can_be_seen(start: u128, staleness_ms: u64)
    ensures
        ({
            let c = planned_senders(staleness_ms)[2];
            let early_to = start + nanos(PRIO1_WINDOW_MS as int);
            let late_from = early_to + nanos(staleness_ms + TAKEOVER_SLACK_MS);
            &&& c[0].for_ms == PRIO1_WINDOW_MS
            &&& start + nanos(c[0].for_ms as int) + nanos(staleness_ms as int) < late_from
            &&& late_from < start + nanos(c[1].for_ms as int)
        }),
{
}

/// A packet counts for its sender if it was received between the two times, both
/// included: for the first or the second sender by the priority that was read, for
/// others where that is another or none, and as bad where it could not be decoded.
pub proof fn packets_count_for_their_sender(log: Seq<Received>, e: Received, from: u128, to: u128)
    ensures
        ({
            let inside = from <= e.at && e.at <= to;
            let first = inside && e.decoded_ok && e.priority == Some(1u16);
            let second = inside && e.decoded_ok && e.priority == Some(2u16);
            let other = inside && e.decoded_ok && e.priority != Some(1u16) && e.priority != Some(
                2u16,
            );
            let bad = inside && !e.decoded_ok;
            let all = log.push(e);
            &&& counted(all, from, to, Sender::Prio1) - counted(log, from, to, Sender::Prio1)
                == if first {
                1int
            } else {
                0int
            }
            &&& counted(all, from, to, Sender::Prio2) - counted(log, from, to, Sender::Prio2)
                == if second {
                1int
            } else {
                0int
            }
            &&& counted(all, from, to, Sender::Other) - counted(log, from, to, Sender::Other)
                == if other {
                1int
            } else {
                0int
            }
            &&& counted(all, from, to, Sender::Bad) - counted(log, from, to, Sender::Bad) == if bad {
                1int
            } else {
                0int
            }
        }),
        counted(Seq::empty(), from, to, Sender::Prio1) == 0,
        counted(Seq::empty(), from, to, Sender::Prio2) == 0,
        counted(Seq::empty(), from, to, Sender::Other) == 0,
        counted(Seq::empty(), from, to, Sender::Bad) == 0,
{
    assert(log.push(e).drop_last() =~= log);
}

/// The packets of all logs are counted together.
pub proof fn logs_are_counted_together(
    logs: Seq<Seq<Received>>,
    log: Seq<Received>,
    from: u128,
    to: u128,
    sender: Sender,
)
    requires
        total_len(logs.push(log)) <= u64::MAX,
    ensures
        total_len(logs.push(log)) == total_len(logs) + log.len(),
        counted_all(logs.push(log), from, to, sender) == counted_all(logs, from, to, sender)
            + counted(log, from, to, sender),
        counted_all(Seq::empty(), from, to, sender) == 0,
        tallied(logs, from, to).prio1 == counted_all(logs, from, to, Sender::Prio1),
        tallied(logs, from, to).prio2 == counted_all(logs, from, to, Sender::Prio2),
        tallied(logs, from, to).other == counted_all(logs, from, to, Sender::Other),
        tallied(logs, from, to).bad == counted_all(logs, from, to, Sender::Bad),
{
    assert(logs.push(log).drop_last() =~= logs);
    lemma_counts_fit(logs, from, to, Sender::Prio1);
    lemma_counts_fit(logs, from, to, Sender::Prio2);
    lemma_counts_fit(logs, from, to, Sender::Other);
    lemma_counts_fit(logs, from, to, Sender::Bad);
}

/// A suite passes exactly if in the first scenario packets of the first sender came
/// out and none of the second, in the second one packets of the first sender and
/// nothing that cannot be decoded, and in the third one first only packets of the
/// first sender and then only some of the second. The exit code is zero then, and else
/// one.
pub proof fn suites_pass_if_every_scenario_does(
    logs: Seq<Seq<Received>>,
    a: ScenarioTimes,
    b: ScenarioTimes,
    c: ScenarioTimes,
    staleness_ms: u64,
)
    requires
        c.start + (staleness_ms + 950) * 1_000_000 <= u128::MAX,
    ensures
        ({
            let r = suite_outcome(logs, a, b, c, staleness_ms);
            let stop = (c.start + 800_000_000) as u128;
            let stale = (c.start + (staleness_ms + 950) * 1_000_000) as u128;
            &&& r.a == tallied(logs, a.start, a.end)
            &&& r.b == tallied(logs, b.start, b.end)
            &&& r.early == tallied(logs, c.start, stop)
            &&& r.late == tallied(logs, stale, c.end)
            &&& r.verdict.priority <==> r.a.prio1 > 0 && r.a.prio2 == 0
            &&& r.verdict.junk <==> r.b.prio1 > 0 && r.b.bad == 0
            &&& r.verdict.staleness <==> r.early.prio1 > 0 && r.early.prio2 == 0 && r.late.prio2
                > 0 && r.late.prio1 == 0
            &&& r.code == if r.verdict.priority && r.verdict.junk && r.verdict.staleness {
                0i32
            } else {
                1i32
            }
        }),
{
}

/// The scenarios: both senders for a second and a half; the first one for as long, with
/// junk; and the first one for 800 milliseconds while the second goes on for 700
/// beyond the staleness. Between them it is quiet for longer than a packet is fresh.
pub proof fn scenarios_are_as_planned(scenario: Scenario, staleness_ms: u64)
    ensures
        planned_senders(staleness_ms).len() == 3,
        planned_senders(staleness_ms)[0] == seq![
            SenderPlan { priority: 1, for_ms: 1_500, mix_junk: false },
            SenderPlan { priority: 2, for_ms: 1_500, mix_junk: false },
        ],
        planned_senders(staleness_ms)[1] == seq![
            SenderPlan { priority: 1, for_ms: 1_500, mix_junk: true },
        ],
        planned_senders(staleness_ms)[2] == seq![
            SenderPlan { priority: 1, for_ms: 800, mix_junk: false },
            SenderPlan { priority: 2, for_ms: (1_500 + staleness_ms) as u128, mix_junk: false },
        ],
        is_scenario(scenario, scenario.senders@, staleness_ms) ==> scenario.settle_ms == 100
            && scenario.quiet_ms == staleness_ms + 100,
        STARTUP_MS == 200,
        SEND_PERIOD_NS == 20_000_000,
        NOT_RUNNABLE == 2,
{
}

/// The first input with a priority has it, and none before it does.
pub proof fn first_inputs_are_first(priorities: Seq<u16>, priority: u16, i: int, j: int)
    requires
        is_first_of(priorities, priority, i),
    ensures
        0 <= i < priorities.len(),
        priorities[i] == priority,
        0 <= j < i ==> priorities[j] != priority,
{
}

} // verus!
