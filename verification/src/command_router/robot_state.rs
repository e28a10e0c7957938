//! The latest telemetry of every drive node.
use std::collections::HashMap;

use vstd::prelude::*;

use crate::json::{Json, JsonTree};

verus! {

broadcast use vstd::std_specs::hash::group_hash_axioms;

/// The answer to the request for the telemetry of one node; without a value
/// where the request failed.
#[derive(Debug)]
pub struct NodeReply {
    pub node_id: u8,
    pub data: Option<Json>,
}

/// The latest snapshot of the telemetry, and how often it is taken.
pub struct RobotState {
    data: HashMap<u8, Json>,
    interval_ms: u64,
}

/// The contents of values in a map.
pub open spec fn trees(data: Map<u8, Json>) -> Map<u8, JsonTree> {
    data.map_values(|j: Json| j@)
}

impl View for RobotState {
    type V = Map<u8, JsonTree>;

    closed spec fn view(&self) -> Map<u8, JsonTree> {
        trees(self.data@)
    }
}

/// What a reply adds to a snapshot: a value other than null.
pub open spec fn usable(reply: NodeReply) -> Option<JsonTree> {
    match reply.data {
        Some(j) => if j@ == JsonTree::Null {
            None
        } else {
            Some(j@)
        },
        None => None,
    }
}

/// The snapshot that replies make up; of two for one node the later counts.
pub open spec fn snapshot(replies: Seq<NodeReply>) -> Map<u8, JsonTree>
    decreases replies.len(),
{
    if replies.len() == 0 {
        Map::empty()
    } else {
        match usable(replies.last()) {
            Some(t) => snapshot(replies.drop_last()).insert(replies.last().node_id, t),
            None => snapshot(replies.drop_last()),
        }
    }
}

/// The telemetry after a poll: what the replies make up, or, where that is
/// nothing, what was there before.
pub open spec fn polled(before: Map<u8, JsonTree>, replies: Seq<NodeReply>) -> Map<u8, JsonTree> {
    if snapshot(replies).is_empty() {
        before
    } else {
        snapshot(replies)
    }
}

impl RobotState {
    /// The time between two polls.
    pub closed spec fn period_ms(&self) -> u64 {
        self.interval_ms
    }

    /// A state without telemetry.
    pub fn new(interval_ms: u64) -> (r: RobotState)
        ensures
            r@ == Map::<u8, JsonTree>::empty(),
            r.period_ms() == interval_ms,
    {
        let r = RobotState { data: HashMap::new(), interval_ms };
        assert(r@ =~= Map::<u8, JsonTree>::empty());
        r
    }

    /// The time between two polls.
    pub fn interval_ms(&self) -> (r: u64)
        ensures
            r == self.period_ms(),
    {
        self.interval_ms
    }

    /// The latest telemetry of one node.
    pub fn node(&self, node_id: u8) -> (r: Option<Json>)
        ensures
            match r {
                Some(j) => self@.contains_key(node_id) && self@[node_id] == j@,
                None => !self@.contains_key(node_id),
            },
    {
        match self.data.get(&node_id) {
            Some(j) => Some(j.copy()),
            None => None,
        }
    }

    /// A copy of the telemetry of all nodes.
    pub fn all(&self) -> (r: HashMap<u8, Json>)
        ensures
            trees(r@) == self@,
    {
        let mut out: HashMap<u8, Json> = HashMap::new();
        for n in 0..256u16
            invariant
                forall|k: u8| #[trigger] out@.contains_key(k) <==> k < n && self.data@.contains_key(k),
                forall|k: u8| #[trigger] out@.contains_key(k) ==> out@[k]@ == self.data@[k]@,
        {
            let id = n as u8;
            match self.data.get(&id) {
                Some(j) => {
                    out.insert(id, j.copy());
                },
                None => {},
            }
        }
        assert(trees(out@) =~= self@);
        out
    }

    /// Takes over the replies of one poll. A poll that brought nothing leaves
    /// the last snapshot in place.
    pub fn poll_once(&mut self, replies: Vec<NodeReply>)
        ensures
            final(self)@ == polled(old(self)@, replies@),
            final(self).period_ms() == old(self).period_ms(),
    {
        let mut fresh: HashMap<u8, Json> = HashMap::new();
        assert(trees(fresh@) =~= Map::<u8, JsonTree>::empty());
        for reply in it: replies
            invariant
                it.seq() == replies@,
                trees(fresh@) == snapshot(replies@.take(it.index() as int)),
        {
            let ghost before = fresh@;
            let ghost i = it.index() as int;
            assert(replies@.take(i + 1).drop_last() =~= replies@.take(i));
            assert(replies@.take(i + 1).last() == reply);
            let node_id = reply.node_id;
            match reply.data {
                Some(j) => {
                    if !j.is_null() {
                        fresh.insert(node_id, j);
                        assert(trees(fresh@) =~= trees(before).insert(node_id, j@));
                    }
                },
                None => {},
            }
        }
        assert(replies@.take(replies@.len() as int) =~= replies@);
        if !fresh.is_empty() {
            proof {
                let k = choose|k: u8| fresh@.contains_key(k);
                assert(fresh@.dom().contains(k));
                assert(trees(fresh@).dom().contains(k));
            }
            self.data = fresh;
        } else {
            assert(trees(fresh@) =~= Map::<u8, JsonTree>::empty());
        }
    }
}

/// Replies are taken one by one: one with a value other than null becomes the
/// telemetry of its node, whatever an earlier one said, and any other adds nothing.
pub proof fn replies_are_taken_one_by_one(replies: Seq<NodeReply>, reply: NodeReply)
    ensures
        snapshot(Seq::empty()) == Map::<u8, JsonTree>::empty(),
        reply.data is None ==> snapshot(replies.push(reply)) == snapshot(replies),
        reply.data matches Some(j) ==> j@ == JsonTree::Null ==> snapshot(replies.push(reply))
            == snapshot(replies),
        reply.data matches Some(j) ==> j@ != JsonTree::Null ==> snapshot(replies.push(reply))
            == snapshot(replies).insert(reply.node_id, j@),
{
    assert(replies.push(reply).drop_last() =~= replies);
}

/// A poll that brought telemetry of any node replaces all that was there, and one
/// that brought none leaves it in place.
pub proof fn polls_replace_the_telemetry(before: Map<u8, JsonTree>, replies: Seq<NodeReply>)
    ensures
        (exists|i: int|
            0 <= i < replies.len() && (#[trigger] replies[i]).data is Some && replies[i].data->0@
                != JsonTree::Null) ==> polled(before, replies) == snapshot(replies),
        (forall|i: int|
            0 <= i < replies.len() ==> (#[trigger] replies[i]).data is None || replies[i].data->0@
                == JsonTree::Null) ==> polled(before, replies) == before,
{
    lemma_snapshot(replies);
}

proof fn lemma_snapshot(replies: Seq<NodeReply>)
    ensures
        forall|i: int|
            0 <= i < replies.len() && (#[trigger] replies[i]).data is Some && replies[i].data->0@
                != JsonTree::Null ==> snapshot(replies).dom().contains(replies[i].node_id),
        (forall|i: int|
            0 <= i < replies.len() ==> (#[trigger] replies[i]).data is None || replies[i].data->0@
                == JsonTree::Null) ==> snapshot(replies) == Map::<u8, JsonTree>::empty(),
    decreases replies.len(),
{
    if replies.len() > 0 {
        let rest = replies.drop_last();
        lemma_snapshot(rest);
        let last = replies.len() - 1;
        assert forall|i: int|
            0 <= i < replies.len() && (#[trigger] replies[i]).data is Some && replies[i].data->0@
                != JsonTree::Null implies snapshot(replies).dom().contains(replies[i].node_id) by {
            if i < last {
                assert(rest[i] == replies[i]);
            }
        }
        if forall|i: int|
            0 <= i < replies.len() ==> (#[trigger] replies[i]).data is None || replies[i].data->0@
                == JsonTree::Null {
            assert forall|i: int| 0 <= i < rest.len() implies (#[trigger] rest[i]).data is None
                || rest[i].data->0@ == JsonTree::Null by {
                assert(rest[i] == replies[i]);
            }
            assert(replies[last].data is None || replies[last].data->0@ == JsonTree::Null);
        }
    }
}

} // verus!
