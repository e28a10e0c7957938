//! The core of the multiplexer: every input keeps its newest packet, and on
//! every tick the best fresh one goes out, once.
//!
//! Times are nanoseconds of a monotonic clock.
use vstd::prelude::*;

use crate::multiplexer::models::Input;
use crate::multiplexer::proto_registry::{lookup, registry, Validator};

verus! {

/// A valid packet on its way from an input to the selector.
#[derive(Debug)]
pub struct Incoming {
    pub input_index: usize,
    pub priority: u16,
    pub timestamp_us: u64,
    pub bytes: Vec<u8>,
}

/// The newest packet of an input.
#[derive(Debug)]
pub struct LatestPacket {
    pub priority: u16,
    pub timestamp_us: u64,
    pub bytes: Vec<u8>,
    pub received_at: u128,
}

/// The mathematical content of an [`Incoming`].
pub struct IncomingView {
    pub input_index: usize,
    pub priority: u16,
    pub timestamp_us: u64,
    pub bytes: Seq<u8>,
}

/// The mathematical content of a [`LatestPacket`].
pub struct PacketView {
    pub priority: u16,
    pub timestamp_us: u64,
    pub bytes: Seq<u8>,
    pub received_at: u128,
}

impl View for Incoming {
    type V = IncomingView;

    open spec fn view(&self) -> IncomingView {
        IncomingView {
            input_index: self.input_index,
            priority: self.priority,
            timestamp_us: self.timestamp_us,
            bytes: self.bytes@,
        }
    }
}

impl View for LatestPacket {
    type V = PacketView;

    open spec fn view(&self) -> PacketView {
        PacketView {
            priority: self.priority,
            timestamp_us: self.timestamp_us,
            bytes: self.bytes@,
            received_at: self.received_at,
        }
    }
}

/// The content of a slot.
pub open spec fn slot_view(slot: Option<LatestPacket>) -> Option<PacketView> {
    match slot {
        Some(p) => Some(p@),
        None => None,
    }
}

/// The contents of slots.
pub open spec fn slot_views(slots: Seq<Option<LatestPacket>>) -> Seq<Option<PacketView>> {
    Seq::new(slots.len(), |i: int| slot_view(slots[i]))
}

/// Whether `validators` are those of the inputs.
pub open spec fn are_validators<S>(inputs: Seq<Input<S>>, validators: Seq<Validator>) -> bool {
    &&& validators.len() == inputs.len()
    &&& forall|i: int|
        0 <= i < inputs.len() ==> crate::multiplexer::proto_registry::validator_named(
            (#[trigger] inputs[i]).protobuf@,
        ) == Some(validators[i])
}

/// Finds the validators of the inputs, or the first input whose messages are not
/// known.
pub fn resolve_validators<S>(inputs: &Vec<Input<S>>) -> (r: Result<Vec<Validator>, usize>)
    ensures
        match r {
            Ok(validators) => are_validators(inputs@, validators@),
            Err(i) => {
                &&& i < inputs@.len()
                &&& crate::multiplexer::proto_registry::validator_named(
                    inputs@[i as int].protobuf@,
                ) is None
                &&& forall|j: int|
                    0 <= j < i ==> crate::multiplexer::proto_registry::validator_named(
                        (#[trigger] inputs@[j]).protobuf@,
                    ) is Some
            },
        },
{
    let reg = registry();
    let mut validators: Vec<Validator> = Vec::new();
    for i in 0..inputs.len()
        invariant
            crate::multiplexer::proto_registry::is_registry(reg@),
            validators@.len() == i,
            forall|j: int|
                0 <= j < i ==> crate::multiplexer::proto_registry::validator_named(
                    (#[trigger] inputs@[j]).protobuf@,
                ) == Some(validators@[j]),
    {
        proof {
            crate::multiplexer::proto_registry::registry_holds_the_validators(
                reg@,
                inputs@[i as int].protobuf@,
            );
        }
        match lookup(&reg, inputs[i].protobuf()) {
            Some(v) => {
                validators.push(v);
            },
            None => {
                return Err(i);
            },
        }
    }
    Ok(validators)
}

/// Takes a packet that came in on an input. What is not valid is dropped.
pub fn accept(input_index: usize, priority: u16, validator: Validator, bytes: &[u8]) -> (r: Option<
    Incoming,
>)
    ensures
        match r {
            Some(msg) => validator.timestamp(bytes@) is Some && msg@ == (IncomingView {
                input_index,
                priority,
                timestamp_us: validator.timestamp(bytes@)->0,
                bytes: bytes@,
            }),
            None => validator.timestamp(bytes@) is None,
        },
{
    match validator.validate(bytes) {
        Some(timestamp_us) => {
            let mut copy: Vec<u8> = Vec::new();
            copy.extend_from_slice(bytes);
            assert(copy@ =~= bytes@);
            Some(Incoming { input_index, priority, timestamp_us, bytes: copy })
        },
        None => None,
    }
}

/// What happens on an input.
pub enum ListenerEvent<'a> {
    /// A datagram came in.
    Datagram(&'a [u8]),
    /// Receiving failed.
    Failed,
}

/// What the program is to do about it.
#[derive(Debug)]
pub enum ListenerAction {
    /// Hand the packet to the selector.
    Forward(Incoming),
    /// Report that a datagram was dropped.
    Dropped,
    /// Stop listening.
    Stop,
}

/// The input that is listened on.
#[derive(Clone, Copy, Debug, PartialEq, Eq, Structural)]
pub struct Listener {
    pub input_index: usize,
    pub priority: u16,
    pub validator: Validator,
}

impl Listener {
    /// The packet that a valid datagram is.
    pub open spec fn packet(self, bytes: Seq<u8>) -> IncomingView {
        IncomingView {
            input_index: self.input_index,
            priority: self.priority,
            timestamp_us: self.validator.timestamp(bytes)->0,
            bytes,
        }
    }

    /// Handles what happens on the input.
    pub fn step(&self, event: ListenerEvent) -> (r: ListenerAction)
        ensures
            match event {
                ListenerEvent::Datagram(bytes) => if self.validator.timestamp(bytes@) is Some {
                    r matches ListenerAction::Forward(msg) && msg@ == self.packet(bytes@)
                } else {
                    r is Dropped
                },
                ListenerEvent::Failed => r is Stop,
            },
    {
        match event {
            ListenerEvent::Datagram(bytes) => match accept(
                self.input_index,
                self.priority,
                self.validator,
                bytes,
            ) {
                Some(msg) => ListenerAction::Forward(msg),
                None => ListenerAction::Dropped,
            },
            ListenerEvent::Failed => ListenerAction::Stop,
        }
    }
}

/// What is handed to the selector for what happens on an input, up to the first
/// failure: `None` stands for one.
pub open spec fn forwarded(l: Listener, events: Seq<Option<Seq<u8>>>) -> Seq<IncomingView>
    decreases events.len(),
{
    if events.len() == 0 {
        Seq::empty()
    } else {
        match events[0] {
            None => Seq::empty(),
            Some(bytes) => {
                let rest = forwarded(l, events.skip(1));
                if l.validator.timestamp(bytes) is Some {
                    seq![l.packet(bytes)] + rest
                } else {
                    rest
                }
            },
        }
    }
}

/// The datagrams as they happen on an input.
pub open spec fn arrivals(datagrams: Seq<Seq<u8>>) -> Seq<Option<Seq<u8>>> {
    datagrams.map_values(|d: Seq<u8>| Some(d))
}

/// Of datagrams that are followed by a failure, exactly those that are valid
/// reach the selector, in their order and unchanged. What is not valid is dropped
/// and ends nothing; what comes behind the failure is not listened to.
pub proof fn valid_datagrams_reach_the_selector(
    l: Listener,
    datagrams: Seq<Seq<u8>>,
    later: Seq<Option<Seq<u8>>>,
)
    ensures
        forwarded(l, arrivals(datagrams) + seq![None] + later) == datagrams.filter(
            |d: Seq<u8>| l.validator.timestamp(d) is Some,
        ).map_values(|d: Seq<u8>| l.packet(d)),
        forwarded(l, arrivals(datagrams)) == datagrams.filter(
            |d: Seq<u8>| l.validator.timestamp(d) is Some,
        ).map_values(|d: Seq<u8>| l.packet(d)),
    decreases datagrams.len(),
{
    let valid = |d: Seq<u8>| l.validator.timestamp(d) is Some;
    let packet = |d: Seq<u8>| l.packet(d);
    let tail = seq![None] + later;
    let events = arrivals(datagrams) + seq![None] + later;
    assert(events =~= arrivals(datagrams) + tail);
    if datagrams.len() == 0 {
        reveal(Seq::filter);
        assert(datagrams.filter(valid).map_values(packet) =~= Seq::empty());
        assert(events[0] is None);
    } else {
        let rest = datagrams.skip(1);
        valid_datagrams_reach_the_selector(l, rest, later);
        assert(events.skip(1) =~= arrivals(rest) + seq![None] + later);
        assert(arrivals(datagrams).skip(1) =~= arrivals(rest));
        assert(datagrams =~= seq![datagrams[0]] + rest);
        Seq::filter_distributes_over_add(seq![datagrams[0]], rest, valid);
        assert(seq![datagrams[0]].filter(valid) =~= if valid(datagrams[0]) {
            seq![datagrams[0]]
        } else {
            Seq::empty()
        }) by {
            reveal_with_fuel(Seq::filter, 2);
            assert(seq![datagrams[0]].drop_last() =~= Seq::<Seq<u8>>::empty());
        }
        let first = seq![datagrams[0]].filter(valid);
        assert((first + rest.filter(valid)).map_values(packet) =~= first.map_values(packet)
            + rest.filter(valid).map_values(packet));
        assert(first.map_values(packet) =~= if valid(datagrams[0]) {
            seq![packet(datagrams[0])]
        } else {
            Seq::empty()
        });
        assert(Seq::<IncomingView>::empty() + rest.filter(valid).map_values(packet)
            =~= rest.filter(valid).map_values(packet));
    }
}

/// Whatever an input hands to the selector is valid for it, and carries the time
/// stamp that its bytes hold.
pub proof fn forwarded_packets_are_valid(l: Listener, events: Seq<Option<Seq<u8>>>, k: int)
    requires
        0 <= k < forwarded(l, events).len(),
    ensures
        forwarded(l, events)[k].input_index == l.input_index,
        l.validator.timestamp(forwarded(l, events)[k].bytes) == Some(
            forwarded(l, events)[k].timestamp_us,
        ),
    decreases events.len(),
{
    if events.len() > 0 && events[0] is Some {
        let rest = events.skip(1);
        if l.validator.timestamp(events[0]->0) is Some {
            if k > 0 {
                forwarded_packets_are_valid(l, rest, k - 1);
            }
        } else {
            forwarded_packets_are_valid(l, rest, k);
        }
    }
}

/// The slot of input `i`.
pub open spec fn slot_at(latest: Seq<Option<PacketView>>, i: int) -> Option<PacketView> {
    if 0 <= i < latest.len() {
        latest[i]
    } else {
        None
    }
}

/// Whether a packet replaces the one in its slot: it has to be newer.
pub open spec fn replaces(latest: Seq<Option<PacketView>>, msg: IncomingView) -> bool {
    match slot_at(latest, msg.input_index as int) {
        Some(prev) => msg.timestamp_us > prev.timestamp_us,
        None => true,
    }
}

/// A packet in its slot.
pub open spec fn stored(msg: IncomingView, now: u128) -> PacketView {
    PacketView {
        priority: msg.priority,
        timestamp_us: msg.timestamp_us,
        bytes: msg.bytes,
        received_at: now,
    }
}

/// The slots after a packet came in: there is one for its input, and it holds
/// the packet if that is newer.
pub open spec fn ingested(latest: Seq<Option<PacketView>>, msg: IncomingView, now: u128) -> Seq<
    Option<PacketView>,
> {
    let len = if msg.input_index < latest.len() {
        latest.len()
    } else {
        (msg.input_index + 1) as nat
    };
    Seq::new(
        len,
        |i: int|
            if i == msg.input_index && replaces(latest, msg) {
                Some(stored(msg, now))
            } else {
                slot_at(latest, i)
            },
    )
}

/// Puts a packet into its slot, if it is newer than what is there.
pub fn ingest(latest: &mut Vec<Option<LatestPacket>>, msg: Incoming, now: u128)
    requires
        msg.input_index < usize::MAX,
    ensures
        slot_views(final(latest)@) == ingested(slot_views(old(latest)@), msg@, now),
{
    let ghost before = slot_views(latest@);
    while latest.len() <= msg.input_index
        invariant
            msg.input_index < usize::MAX,
            before.len() <= latest@.len(),
            latest@.len() <= before.len() || latest@.len() <= msg.input_index + 1,
            before.len() == old(latest)@.len(),
            forall|i: int|
                0 <= i < latest@.len() ==> #[trigger] slot_view(latest@[i]) == slot_at(before, i),
        decreases msg.input_index + 1 - latest@.len(),
    {
        latest.push(None);
    }
    assert(slot_view(latest@[msg.input_index as int]) == slot_at(before, msg.input_index as int));
    let accept = match &latest[msg.input_index] {
        Some(prev) => msg.timestamp_us > prev.timestamp_us,
        None => true,
    };
    let ghost grown = latest@;
    let ghost incoming = msg@;
    assert(accept == replaces(before, incoming));
    if accept {
        latest.set(
            msg.input_index,
            Some(
                LatestPacket {
                    priority: msg.priority,
                    timestamp_us: msg.timestamp_us,
                    bytes: msg.bytes,
                    received_at: now,
                },
            ),
        );
    }
    assert forall|i: int| 0 <= i < latest@.len() implies #[trigger] slot_view(latest@[i])
        == ingested(before, incoming, now)[i] by {
        assert(slot_view(grown[i]) == slot_at(before, i));
    }
    assert(slot_views(latest@) =~= ingested(before, incoming, now));
}

/// Whether a packet came in no longer ago than `staleness`.
pub open spec fn is_fresh(p: PacketView, staleness: u128, now: u128) -> bool {
    now <= p.received_at + staleness
}

/// Whether slot `i` holds a fresh packet.
pub open spec fn fresh_at(latest: Seq<Option<PacketView>>, staleness: u128, now: u128, i: int) -> bool {
    slot_at(latest, i) is Some && is_fresh(slot_at(latest, i)->0, staleness, now)
}

/// Whether packet `a` of input `i` goes before packet `b` of input `j`: by a
/// smaller number of its priority, then by a later time stamp, then by an
/// earlier input.
pub open spec fn goes_before(a: PacketView, i: int, b: PacketView, j: int) -> bool {
    a.priority < b.priority || (a.priority == b.priority && (a.timestamp_us > b.timestamp_us || (
    a.timestamp_us == b.timestamp_us && i <= j)))
}

/// Whether input `i` wins: its packet is fresh and goes before all that are.
pub open spec fn wins(latest: Seq<Option<PacketView>>, staleness: u128, now: u128, i: int) -> bool {
    &&& fresh_at(latest, staleness, now, i)
    &&& forall|j: int| #[trigger]
        fresh_at(latest, staleness, now, j) ==> goes_before(
            slot_at(latest, i)->0,
            i,
            slot_at(latest, j)->0,
            j,
        )
}

/// Finds the input that wins.
pub fn pick_winner(latest: &Vec<Option<LatestPacket>>, staleness: u128, now: u128) -> (r: Option<
    usize,
>)
    ensures
        match r {
            Some(i) => wins(slot_views(latest@), staleness, now, i as int),
            None => forall|j: int| !#[trigger] fresh_at(slot_views(latest@), staleness, now, j),
        },
        r matches Some(i) ==> i < latest@.len() && latest@[i as int] is Some,
{
    let ghost slots = slot_views(latest@);
    let mut best: Option<usize> = None;
    for i in 0..latest.len()
        invariant
            slots == slot_views(latest@),
            match best {
                Some(b) => {
                    &&& b < i
                    &&& fresh_at(slots, staleness, now, b as int)
                    &&& forall|j: int|
                        0 <= j < i && #[trigger] fresh_at(slots, staleness, now, j) ==> goes_before(
                            slot_at(slots, b as int)->0,
                            b as int,
                            slot_at(slots, j)->0,
                            j,
                        )
                },
                None => forall|j: int|
                    0 <= j < i ==> !#[trigger] fresh_at(slots, staleness, now, j),
            },
    {
        assert(slots[i as int] == slot_view(latest@[i as int]));
        match &latest[i] {
            Some(p) => {
                let fresh = now < p.received_at || now - p.received_at <= staleness;
                assert(fresh == fresh_at(slots, staleness, now, i as int));
                if fresh {
                    let better = match best {
                        Some(b) => {
                            assert(slots[b as int] == slot_view(latest@[b as int]));
                            match &latest[b] {
                                Some(q) => p.priority < q.priority || (p.priority == q.priority
                                    && p.timestamp_us > q.timestamp_us),
                                None => true,
                            }
                        },
                        None => true,
                    };
                    if better {
                        best = Some(i);
                    }
                }
            },
            None => {},
        }
    }
    best
}

/// A packet that goes out.
#[derive(Debug)]
pub struct Emission {
    pub input_index: usize,
    pub priority: u16,
    pub timestamp_us: u64,
    pub bytes: Vec<u8>,
}

impl View for Emission {
    type V = IncomingView;

    open spec fn view(&self) -> IncomingView {
        IncomingView {
            input_index: self.input_index,
            priority: self.priority,
            timestamp_us: self.timestamp_us,
            bytes: self.bytes@,
        }
    }
}

/// The state of the multiplexer.
pub struct Selector {
    latest: Vec<Option<LatestPacket>>,
    last_emitted: Option<(usize, u64)>,
    next_tick: u128,
    emit_interval: u128,
    staleness: u128,
}

/// The mathematical content of a [`Selector`].
pub struct SelectorView {
    /// The newest packet of each input.
    pub latest: Seq<Option<PacketView>>,
    /// The input and the time stamp of what went out last.
    pub last_emitted: Option<(usize, u64)>,
    pub next_tick: u128,
    pub emit_interval: u128,
    pub staleness: u128,
}

impl View for Selector {
    type V = SelectorView;

    closed spec fn view(&self) -> SelectorView {
        SelectorView {
            latest: slot_views(self.latest@),
            last_emitted: self.last_emitted,
            next_tick: self.next_tick,
            emit_interval: self.emit_interval,
            staleness: self.staleness,
        }
    }
}

/// So many milliseconds in nanoseconds.
pub open spec fn nanos(ms: u64) -> u128 {
    (ms * 1_000_000) as u128
}

impl SelectorView {
    /// Whether input `i` goes out on a tick: it wins, and its packet is not what
    /// went out last.
    pub open spec fn emits(self, now: u128, i: int) -> bool {
        &&& wins(self.latest, self.staleness, now, i)
        &&& self.last_emitted != Some((i as usize, slot_at(self.latest, i)->0.timestamp_us))
    }

    /// The packet of input `i` as it goes out.
    pub open spec fn outgoing(self, i: int) -> IncomingView {
        let p = slot_at(self.latest, i)->0;
        IncomingView {
            input_index: i as usize,
            priority: p.priority,
            timestamp_us: p.timestamp_us,
            bytes: p.bytes,
        }
    }

    /// The state after a packet came in.
    pub open spec fn received(self, msg: IncomingView, now: u128) -> SelectorView {
        SelectorView { latest: ingested(self.latest, msg, now), ..self }
    }

    /// The state after input `i` went out.
    pub open spec fn emitted(self, i: int) -> SelectorView {
        SelectorView {
            last_emitted: Some((i as usize, slot_at(self.latest, i)->0.timestamp_us)),
            ..self
        }
    }

    /// The time of the tick behind one that ended at `now`: an interval later,
    /// or, where that is past already, an interval from now.
    pub open spec fn tick_after(self, now: u128) -> int {
        if self.next_tick + self.emit_interval < now {
            now + self.emit_interval
        } else {
            self.next_tick + self.emit_interval
        }
    }
}

impl Selector {
    /// A selector that has seen nothing, with its first tick an interval from
    /// now.
    pub fn new(emit_interval_ms: u64, staleness_ms: u64, now: u128) -> (r: Selector)
        requires
            now + nanos(emit_interval_ms) <= u128::MAX,
        ensures
            r@ == (SelectorView {
                latest: Seq::empty(),
                last_emitted: None,
                next_tick: (now + nanos(emit_interval_ms)) as u128,
                emit_interval: nanos(emit_interval_ms),
                staleness: nanos(staleness_ms),
            }),
    {
        let emit_interval = emit_interval_ms as u128 * 1_000_000;
        let r = Selector {
            latest: Vec::new(),
            last_emitted: None,
            next_tick: now + emit_interval,
            emit_interval,
            staleness: staleness_ms as u128 * 1_000_000,
        };
        assert(r@.latest =~= Seq::<Option<PacketView>>::empty());
        r
    }

    /// How long to wait for a packet before the next tick is due.
    pub fn wait(&self, now: u128) -> (r: u128)
        ensures
            r == if now < self@.next_tick {
                self@.next_tick - now
            } else {
                0
            },
    {
        if now < self.next_tick {
            self.next_tick - now
        } else {
            0
        }
    }

    /// Takes a packet.
    pub fn on_packet(&mut self, msg: Incoming, now: u128)
        requires
            msg.input_index < usize::MAX,
        ensures
            final(self)@ == old(self)@.received(msg@, now),
    {
        ingest(&mut self.latest, msg, now);
    }

    /// Performs a tick: the packet that is to go out, if any.
    pub fn on_tick(&mut self, now: u128) -> (r: Option<Emission>)
        ensures
            match r {
                Some(out) => {
                    let i = out.input_index as int;
                    &&& old(self)@.emits(now, i)
                    &&& out@ == old(self)@.outgoing(i)
                    &&& final(self)@ == old(self)@.emitted(i)
                },
                None => {
                    &&& forall|i: int| !#[trigger] old(self)@.emits(now, i)
                    &&& final(self)@ == old(self)@
                },
            },
            final(self)@ == tick_step(old(self)@, now).0,
            match r {
                Some(out) => tick_step(old(self)@, now).1 == Some(out@),
                None => tick_step(old(self)@, now).1 is None,
            },
    {
        let ghost slots = slot_views(self.latest@);
        let i = match pick_winner(&self.latest, self.staleness, now) {
            Some(i) => i,
            None => {
                assert forall|j: int| !#[trigger] self@.emits(now, j) by {
                    assert(!fresh_at(slots, self.staleness, now, j));
                }
                return None;
            },
        };
        assert(slots[i as int] == slot_view(self.latest@[i as int]));
        match &self.latest[i] {
            Some(winner) => {
                let repeated = match self.last_emitted {
                    Some((idx, timestamp_us)) => idx == i && timestamp_us == winner.timestamp_us,
                    None => false,
                };
                if repeated {
                    assert forall|j: int| !#[trigger] self@.emits(now, j) by {
                        if wins(slots, self.staleness, now, j) {
                            winner_is_unique(slots, self.staleness, now, i as int, j);
                        }
                    }
                    return None;
                }
                let out = Emission {
                    input_index: i,
                    priority: winner.priority,
                    timestamp_us: winner.timestamp_us,
                    bytes: winner.bytes.clone(),
                };
                assert(out.bytes@ =~= winner.bytes@);
                proof {
                    assert(self@.emits(now, i as int));
                    let j = choose|j: int| #[trigger] self@.emits(now, j);
                    winner_is_unique(slots, self.staleness, now, i as int, j);
                }
                self.last_emitted = Some((i, winner.timestamp_us));
                Some(out)
            },
            None => None,
        }
    }

    /// Whether the clock has room for another tick.
    pub fn can_advance(&self, now: u128) -> (r: bool)
        ensures
            r == (self@.next_tick + self@.emit_interval <= u128::MAX && now + self@.emit_interval
                <= u128::MAX),
    {
        self.next_tick <= u128::MAX - self.emit_interval && now <= u128::MAX - self.emit_interval
    }

    /// Sets the time of the next tick once a tick is over.
    pub fn advance(&mut self, now: u128)
        requires
            old(self)@.next_tick + old(self)@.emit_interval <= u128::MAX,
            now + old(self)@.emit_interval <= u128::MAX,
        ensures
            final(self)@ == (SelectorView {
                next_tick: old(self)@.tick_after(now) as u128,
                ..old(self)@
            }),
    {
        self.next_tick = self.next_tick + self.emit_interval;
        if self.next_tick < now {
            self.next_tick = now + self.emit_interval;
        }
    }
}

/// No two inputs win.
pub proof fn winner_is_unique(
    latest: Seq<Option<PacketView>>,
    staleness: u128,
    now: u128,
    i: int,
    j: int,
)
    requires
        wins(latest, staleness, now, i),
        wins(latest, staleness, now, j),
    ensures
        i == j,
{
    assert(fresh_at(latest, staleness, now, i));
    assert(fresh_at(latest, staleness, now, j));
}

/// Priority wins: while an input has a fresh packet, nothing of a lesser
/// priority goes out.
pub proof fn priority_wins(s: SelectorView, now: u128, i: int, j: int)
    requires
        s.emits(now, i),
        fresh_at(s.latest, s.staleness, now, j),
    ensures
        slot_at(s.latest, i)->0.priority <= slot_at(s.latest, j)->0.priority,
{
}

/// Staleness fails over: an input whose packet is stale does not go out, and the
/// best of the others wins.
pub proof fn stale_inputs_give_way(s: SelectorView, now: u128, i: int, j: int)
    requires
        fresh_at(s.latest, s.staleness, now, j),
        forall|k: int|
            k != j && #[trigger] fresh_at(s.latest, s.staleness, now, k) ==> slot_at(
                s.latest,
                k,
            )->0.priority > slot_at(s.latest, j)->0.priority,
    ensures
        !fresh_at(s.latest, s.staleness, now, i) ==> !s.emits(now, i),
        wins(s.latest, s.staleness, now, j),
{
}

/// Nothing goes out twice in a row: right after a packet went out, a tick sends
/// nothing of the same input with the same time stamp.
pub proof fn packets_go_out_once(s: SelectorView, now: u128, later: u128, i: int)
    requires
        s.emits(now, i),
    ensures
        !s.emitted(i).emits(later, i),
{
}

/// Ticks do not pile up: the next one is never in the past, and without delay
/// it is an interval behind the last.
pub proof fn ticks_do_not_pile_up(s: SelectorView, now: u128)
    ensures
        s.tick_after(now) >= now,
        now <= s.next_tick + s.emit_interval ==> s.tick_after(now) == s.next_tick
            + s.emit_interval,
{
}

/// The time stamps of an input only grow, and a slot that holds a packet stays
/// filled.
pub proof fn timestamps_grow(latest: Seq<Option<PacketView>>, msg: IncomingView, now: u128, i: int)
    ensures
        slot_at(latest, i) is Some ==> {
            &&& slot_at(ingested(latest, msg, now), i) is Some
            &&& (slot_at(ingested(latest, msg, now), i) == slot_at(latest, i) || slot_at(
                ingested(latest, msg, now),
                i,
            )->0.timestamp_us > slot_at(latest, i)->0.timestamp_us)
        },
{
}

/// The slots after packets came in, each with its time.
pub open spec fn ingested_all(msgs: Seq<(IncomingView, u128)>) -> Seq<Option<PacketView>>
    decreases msgs.len(),
{
    if msgs.len() == 0 {
        Seq::empty()
    } else {
        ingested(ingested_all(msgs.drop_last()), msgs.last().0, msgs.last().1)
    }
}

/// Whether the packet in place `k` is the first of the newest that came in on
/// its input.
pub open spec fn is_first_newest(msgs: Seq<(IncomingView, u128)>, k: int) -> bool {
    &&& 0 <= k < msgs.len()
    &&& forall|j: int|
        0 <= j < msgs.len() && (#[trigger] msgs[j]).0.input_index == msgs[k].0.input_index ==> if j
            < k {
            msgs[j].0.timestamp_us < msgs[k].0.timestamp_us
        } else {
            msgs[j].0.timestamp_us <= msgs[k].0.timestamp_us
        }
}

/// Every slot holds, unchanged, the first of the newest packets that came in on
/// its input, and is empty only where nothing came in.
pub proof fn slots_hold_the_newest_packets(msgs: Seq<(IncomingView, u128)>, i: int)
    ensures
        match slot_at(ingested_all(msgs), i) {
            Some(p) => exists|k: int| #[trigger]
                is_first_newest(msgs, k) && msgs[k].0.input_index == i && p == stored(
                    msgs[k].0,
                    msgs[k].1,
                ),
            None => forall|k: int|
                0 <= k < msgs.len() ==> (#[trigger] msgs[k]).0.input_index != i,
        },
    decreases msgs.len(),
{
    if msgs.len() > 0 {
        let before = msgs.drop_last();
        let n = msgs.len() - 1;
        let (msg, now) = msgs[n];
        slots_hold_the_newest_packets(before, i);
        let old_slot = slot_at(ingested_all(before), i);
        let slot = slot_at(ingested_all(msgs), i);
        assert forall|k: int| 0 <= k < n implies #[trigger] msgs[k] == before[k] by {}
        if msg.input_index == i && replaces(ingested_all(before), msg) {
            assert(slot == Some(stored(msg, now)));
            assert forall|j: int|
                0 <= j < n && (#[trigger] msgs[j]).0.input_index == i implies msgs[j].0.timestamp_us
                < msg.timestamp_us by {
                assert(before[j] == msgs[j]);
                if old_slot is Some {
                    let k = choose|k: int| #[trigger]
                        is_first_newest(before, k) && before[k].0.input_index == i && old_slot->0
                            == stored(before[k].0, before[k].1);
                    assert(before[j].0.timestamp_us <= before[k].0.timestamp_us);
                }
            }
            assert(is_first_newest(msgs, n));
        } else {
            assert(slot == old_slot);
            if old_slot is Some {
                let k = choose|k: int| #[trigger]
                    is_first_newest(before, k) && before[k].0.input_index == i && old_slot->0
                        == stored(before[k].0, before[k].1);
                assert(msgs[k] == before[k]);
                assert forall|j: int|
                    0 <= j < msgs.len() && (#[trigger] msgs[j]).0.input_index
                        == msgs[k].0.input_index implies if j < k {
                    msgs[j].0.timestamp_us < msgs[k].0.timestamp_us
                } else {
                    msgs[j].0.timestamp_us <= msgs[k].0.timestamp_us
                } by {
                    if j < n {
                        assert(before[j] == msgs[j]);
                    }
                }
                assert(is_first_newest(msgs, k));
            } else {
                assert forall|k: int| 0 <= k < msgs.len() implies (
                #[trigger] msgs[k]).0.input_index != i by {
                    if k < n {
                        assert(before[k] == msgs[k]);
                    }
                }
            }
        }
    }
}

/// There are as many slots as the greatest number of an input that something
/// came in on asks for.
pub proof fn slots_reach_up_to_the_last_input(msgs: Seq<(IncomingView, u128)>)
    ensures
        msgs.len() == 0 ==> ingested_all(msgs).len() == 0,
        forall|k: int|
            0 <= k < msgs.len() ==> (#[trigger] msgs[k]).0.input_index < ingested_all(msgs).len(),
        msgs.len() > 0 ==> exists|k: int|
            0 <= k < msgs.len() && (#[trigger] msgs[k]).0.input_index + 1 == ingested_all(
                msgs,
            ).len(),
    decreases msgs.len(),
{
    if msgs.len() > 0 {
        let before = msgs.drop_last();
        let n = msgs.len() - 1;
        slots_reach_up_to_the_last_input(before);
        assert forall|k: int| 0 <= k < n implies #[trigger] msgs[k] == before[k] by {}
        if msgs[n].0.input_index < ingested_all(before).len() {
            let k = choose|k: int|
                0 <= k < before.len() && (#[trigger] before[k]).0.input_index + 1 == ingested_all(
                    before,
                ).len();
            assert(msgs[k] == before[k]);
        } else {
            assert(msgs[n].0.input_index + 1 == ingested_all(msgs).len());
        }
    }
}

/// What happens to the multiplexer, with its time.
pub enum MuxEvent {
    Packet(IncomingView, u128),
    Tick(u128),
}

/// What a tick does: the state behind it, and what goes out.
pub open spec fn tick_step(s: SelectorView, now: u128) -> (SelectorView, Option<IncomingView>) {
    if exists|i: int| #[trigger] s.emits(now, i) {
        let i = choose|i: int| #[trigger] s.emits(now, i);
        (s.emitted(i), Some(s.outgoing(i)))
    } else {
        (s, None)
    }
}

/// What events do, one after the other: the state behind them, and all that went
/// out.
pub open spec fn mux_run(s: SelectorView, events: Seq<MuxEvent>) -> (SelectorView, Seq<IncomingView>)
    decreases events.len(),
{
    if events.len() == 0 {
        (s, Seq::empty())
    } else {
        let (before, out) = mux_run(s, events.drop_last());
        match events.last() {
            MuxEvent::Packet(msg, now) => (before.received(msg, now), out),
            MuxEvent::Tick(now) => {
                let (after, sent) = tick_step(before, now);
                match sent {
                    Some(packet) => (after, out.push(packet)),
                    None => (after, out),
                }
            },
        }
    }
}

/// Whether `packet` came in with one of the events.
pub open spec fn came_in(events: Seq<MuxEvent>, packet: IncomingView) -> bool {
    exists|k: int|
        0 <= k < events.len() && (#[trigger] events[k] matches MuxEvent::Packet(msg, _) && msg
            == packet)
}

proof fn lemma_came_in_before(events: Seq<MuxEvent>, packet: IncomingView)
    requires
        events.len() > 0,
        came_in(events.drop_last(), packet),
    ensures
        came_in(events, packet),
{
    let before = events.drop_last();
    let k = choose|k: int|
        0 <= k < before.len() && (#[trigger] before[k] matches MuxEvent::Packet(msg, _) && msg
            == packet);
    assert(events[k] == before[k]);
}

/// What a filled slot holds came in on its input.
proof fn lemma_slots_came_in(s: SelectorView, events: Seq<MuxEvent>, i: int)
    requires
        s.latest.len() == 0,
        slot_at(mux_run(s, events).0.latest, i) is Some,
    ensures
        0 <= i <= usize::MAX,
        came_in(events, mux_run(s, events).0.outgoing(i)),
    decreases events.len(),
{
    if events.len() > 0 {
        let before = events.drop_last();
        let state = mux_run(s, before).0;
        let packet = mux_run(s, events).0.outgoing(i);
        match events.last() {
            MuxEvent::Packet(msg, now) => {
                if i == msg.input_index && replaces(state.latest, msg) {
                    assert(events[events.len() - 1] == events.last());
                    assert(packet == msg);
                } else {
                    lemma_slots_came_in(s, before, i);
                    lemma_came_in_before(events, packet);
                }
            },
            MuxEvent::Tick(_) => {
                lemma_slots_came_in(s, before, i);
                lemma_came_in_before(events, packet);
            },
        }
    }
}

/// Whatever goes out came in before, with the same bytes, on the input that it is
/// attributed to.
pub proof fn what_goes_out_came_in(s: SelectorView, events: Seq<MuxEvent>, k: int)
    requires
        s.latest.len() == 0,
        0 <= k < mux_run(s, events).1.len(),
    ensures
        came_in(events, mux_run(s, events).1[k]),
    decreases events.len(),
{
    if events.len() > 0 {
        let before = events.drop_last();
        let (state, out) = mux_run(s, before);
        if k < out.len() {
            what_goes_out_came_in(s, before, k);
            lemma_came_in_before(events, out[k]);
        } else {
            let now = events.last()->Tick_0;
            let i = choose|i: int| #[trigger] state.emits(now, i);
            lemma_slots_came_in(s, before, i);
            lemma_came_in_before(events, state.outgoing(i));
        }
    }
}

/// The input and the time stamp of a packet.
pub open spec fn key_of(packet: IncomingView) -> (usize, u64) {
    (packet.input_index, packet.timestamp_us)
}

/// What goes out last is what the selector remembers.
proof fn lemma_last_emitted(s: SelectorView, events: Seq<MuxEvent>)
    requires
        s.latest.len() == 0,
    ensures
        mux_run(s, events).1.len() > 0 ==> mux_run(s, events).0.last_emitted == Some(
            key_of(mux_run(s, events).1.last()),
        ),
    decreases events.len(),
{
    if events.len() > 0 {
        lemma_last_emitted(s, events.drop_last());
    }
}

/// Of two packets that go out in a row, the second is another one: it comes from
/// another input or has another time stamp.
pub proof fn nothing_goes_out_twice_in_a_row(s: SelectorView, events: Seq<MuxEvent>, k: int)
    requires
        s.latest.len() == 0,
        0 <= k < mux_run(s, events).1.len() - 1,
    ensures
        key_of(mux_run(s, events).1[k]) != key_of(mux_run(s, events).1[k + 1]),
    decreases events.len(),
{
    if events.len() > 0 {
        let before = events.drop_last();
        let (state, out) = mux_run(s, before);
        if k < out.len() - 1 {
            nothing_goes_out_twice_in_a_row(s, before, k);
        } else {
            let now = events.last()->Tick_0;
            let i = choose|i: int| #[trigger] state.emits(now, i);
            lemma_last_emitted(s, before);
            lemma_slots_came_in(s, before, i);
        }
    }
}

/// If only valid packets come in, only valid packets go out, each with the time
/// stamp that its bytes hold.
pub proof fn junk_never_goes_out(
    s: SelectorView,
    events: Seq<MuxEvent>,
    validators: Seq<Validator>,
    k: int,
)
    requires
        s.latest.len() == 0,
        forall|j: int|
            0 <= j < events.len() ==> (#[trigger] events[j] matches MuxEvent::Packet(msg, _)
                ==> validators[msg.input_index as int].timestamp(msg.bytes) == Some(
                msg.timestamp_us,
            )),
        0 <= k < mux_run(s, events).1.len(),
    ensures
        ({
            let packet = mux_run(s, events).1[k];
            validators[packet.input_index as int].timestamp(packet.bytes) == Some(
                packet.timestamp_us,
            )
        }),
{
    what_goes_out_came_in(s, events, k);
}

/// The best fresh packet goes out, whatever its bytes are, unless it is what went
/// out last: where slot `i` holds a packet that came in no longer ago than the
/// staleness, and every other packet of which that is true has a greater number
/// of its priority, or the same one and an older time stamp, or the same time
/// stamp too and a later input. Nothing but the memory of what went out changes.
pub proof fn the_best_fresh_packet_goes_out(s: SelectorView, now: u128, i: int)
    requires
        0 <= i < s.latest.len(),
        s.latest[i] is Some,
        now <= s.latest[i]->0.received_at + s.staleness,
        forall|j: int|
            0 <= j < s.latest.len() && j != i && (#[trigger] s.latest[j]) is Some && now
                <= s.latest[j]->0.received_at + s.staleness ==> s.latest[i]->0.priority
                < s.latest[j]->0.priority || (s.latest[i]->0.priority == s.latest[j]->0.priority
                && (s.latest[i]->0.timestamp_us > s.latest[j]->0.timestamp_us || (
            s.latest[i]->0.timestamp_us == s.latest[j]->0.timestamp_us && i < j))),
    ensures
        s.last_emitted != Some((i as usize, s.latest[i]->0.timestamp_us)) ==> tick_step(s, now)
            == (
            SelectorView {
                last_emitted: Some((i as usize, s.latest[i]->0.timestamp_us)),
                ..s
            },
            Some(
                IncomingView {
                    input_index: i as usize,
                    priority: s.latest[i]->0.priority,
                    timestamp_us: s.latest[i]->0.timestamp_us,
                    bytes: s.latest[i]->0.bytes,
                },
            ),
        ),
        s.last_emitted == Some((i as usize, s.latest[i]->0.timestamp_us)) ==> tick_step(s, now) == (
            s,
            None::<IncomingView>,
        ),
{
    assert forall|j: int| #[trigger] fresh_at(s.latest, s.staleness, now, j) implies goes_before(
        slot_at(s.latest, i)->0,
        i,
        slot_at(s.latest, j)->0,
        j,
    ) by {
        assert(s.latest[j] is Some);
    }
    assert(wins(s.latest, s.staleness, now, i));
    assert forall|j: int| #[trigger] s.emits(now, j) implies j == i by {
        winner_is_unique(s.latest, s.staleness, now, i, j);
    }
    if s.last_emitted != Some((i as usize, s.latest[i]->0.timestamp_us)) {
        assert(s.emits(now, i));
    }
}

/// Where no slot holds a packet that came in no longer ago than the staleness, a
/// tick sends nothing and changes nothing.
pub proof fn nothing_fresh_means_silence(s: SelectorView, now: u128)
    requires
        forall|j: int|
            0 <= j < s.latest.len() && (#[trigger] s.latest[j]) is Some ==> now
                > s.latest[j]->0.received_at + s.staleness,
    ensures
        tick_step(s, now) == (s, None::<IncomingView>),
{
    assert forall|j: int| !#[trigger] s.emits(now, j) by {
        if 0 <= j < s.latest.len() {
            assert(s.latest[j] is Some || s.latest[j] is None);
        }
    }
}

/// A packet takes the slot of its input, unchanged and with the time at which it
/// came in, if that is empty or holds one with an older time stamp, and else
/// leaves it as it is. All other slots stay as they were, those that have to be
/// made are empty, and nothing else of the selector changes.
pub proof fn newer_packets_take_their_slot(s: SelectorView, msg: IncomingView, now: u128)
    ensures
        ({
            let after = s.received(msg, now);
            let k = msg.input_index as int;
            let held = if k < s.latest.len() {
                s.latest[k]
            } else {
                None
            };
            &&& after.latest.len() == if k < s.latest.len() {
                s.latest.len() as int
            } else {
                k + 1
            }
            &&& held is None || held->0.timestamp_us < msg.timestamp_us ==> after.latest[k] == Some(
                PacketView {
                    priority: msg.priority,
                    timestamp_us: msg.timestamp_us,
                    bytes: msg.bytes,
                    received_at: now,
                },
            )
            &&& held is Some && held->0.timestamp_us >= msg.timestamp_us ==> after.latest[k] == held
            &&& forall|i: int|
                0 <= i < s.latest.len() && i != k ==> #[trigger] after.latest[i] == s.latest[i]
            &&& forall|i: int| s.latest.len() <= i < k ==> (#[trigger] after.latest[i]) is None
            &&& after.last_emitted == s.last_emitted
            &&& after.next_tick == s.next_tick
            &&& after.emit_interval == s.emit_interval
            &&& after.staleness == s.staleness
        }),
{
}

/// A lone packet that is new and fresh goes out on the next tick as it came in.
pub proof fn a_lone_packet_comes_through(s: SelectorView, msg: IncomingView, at: u128, now: u128)
    requires
        s.latest.len() == 0,
        s.last_emitted != Some((msg.input_index, msg.timestamp_us)),
        now <= at + s.staleness,
    ensures
        tick_step(s.received(msg, at), now).1 == Some(msg),
{
    let after = s.received(msg, at);
    newer_packets_take_their_slot(s, msg, at);
    assert forall|j: int|
        0 <= j < after.latest.len() && j != msg.input_index implies (#[trigger] after.latest[j])
        is None by {}
    the_best_fresh_packet_goes_out(after, now, msg.input_index as int);
}

/// Times are counted in nanoseconds, of which a millisecond has a million; a tick
/// that ends in time is followed by one an interval behind it, and one that ends
/// later than that by one an interval from then.
pub proof fn ticks_keep_their_interval(s: SelectorView, now: u128, ms: u64)
    ensures
        nanos(ms) == ms * 1_000_000,
        s.tick_after(now) == if s.next_tick + s.emit_interval < now {
            now + s.emit_interval
        } else {
            s.next_tick + s.emit_interval
        },
{
}

/// A datagram that is handed to the selector carries the number and the priority
/// of its input, the time stamp that its validator reads, and all of its bytes.
pub proof fn packets_carry_their_datagram(l: Listener, bytes: Seq<u8>)
    requires
        l.validator.timestamp(bytes) is Some,
    ensures
        l.packet(bytes).input_index == l.input_index,
        l.packet(bytes).priority == l.priority,
        Some(l.packet(bytes).timestamp_us) == l.validator.timestamp(bytes),
        l.packet(bytes).bytes == bytes,
{
}

/// There is one validator for each input, and it is the one of the file that the
/// input names.
pub proof fn inputs_get_the_validator_of_their_file<S>(
    inputs: Seq<Input<S>>,
    validators: Seq<Validator>,
    i: int,
)
    requires
        are_validators(inputs, validators),
        0 <= i < inputs.len(),
    ensures
        validators.len() == inputs.len(),
        validators[i] == Validator::RoveControl <==> inputs[i].protobuf@ == "RoveControl.proto"@,
        validators[i] == Validator::RoveTelemetry <==> inputs[i].protobuf@
            == "RoveTelemetry.proto"@,
{
    let name = inputs[i].protobuf@;
    crate::multiplexer::proto_registry::files_name_their_validator(name);
}

/// Once the packets of an input are stale, the next best input that is fresh takes
/// over, though its packets are of a lesser priority: with two inputs, the second one
/// goes out exactly while the first is not fresh.
pub proof fn the_second_input_takes_over(s: SelectorView, now: u128)
    requires
        s.latest.len() == 2,
        s.latest[0] is Some,
        s.latest[1] is Some,
        s.latest[0]->0.priority < s.latest[1]->0.priority,
        now <= s.latest[1]->0.received_at + s.staleness,
        s.last_emitted is None,
    ensures
        now > s.latest[0]->0.received_at + s.staleness ==> tick_step(s, now).1 == Some(
            IncomingView {
                input_index: 1,
                priority: s.latest[1]->0.priority,
                timestamp_us: s.latest[1]->0.timestamp_us,
                bytes: s.latest[1]->0.bytes,
            },
        ),
        now <= s.latest[0]->0.received_at + s.staleness ==> tick_step(s, now).1 == Some(
            IncomingView {
                input_index: 0,
                priority: s.latest[0]->0.priority,
                timestamp_us: s.latest[0]->0.timestamp_us,
                bytes: s.latest[0]->0.bytes,
            },
        ),
{
    if now > s.latest[0]->0.received_at + s.staleness {
        the_best_fresh_packet_goes_out(s, now, 1);
    } else {
        the_best_fresh_packet_goes_out(s, now, 0);
    }
}

} // verus!
