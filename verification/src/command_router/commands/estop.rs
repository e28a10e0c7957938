//! Emergency stop and clearing of errors.
use vstd::prelude::*;

use crate::command_router::api_client::{HttpRequest, HttpRequestView};
use crate::command_router::commands::drive::{DriveCommand, AXIS_CLOSED_LOOP, INPUT_PASSTHROUGH};
use crate::command_router::commands::{Command, CommandContext, CommandContextView, Outgoing};

verus! {

/// Stops every drive node, and forgets what was sent to the nodes.
#[derive(Clone, Copy, Debug, PartialEq, Eq, Structural)]
pub struct EstopCommand;

/// Clears the errors of every drive node, and forgets what was sent to the
/// nodes.
#[derive(Clone, Copy, Debug, PartialEq, Eq, Structural)]
pub struct ClearErrorsCommand;

/// Whether `sent` are the requests that `of` gives, one for each known node in
/// ascending order.
pub open spec fn requests_for_all(
    ctx: CommandContextView,
    sent: Seq<Outgoing>,
    of: spec_fn(u8) -> HttpRequestView,
) -> bool {
    exists|requests: Seq<HttpRequest>| #[trigger]
        ctx.api.covers_nodes(requests, of) && sent == Seq::new(
            requests.len(),
            |i: int| Outgoing::Http(requests[i]),
        )
}

/// Packs requests for sending.
fn pack(requests: Vec<HttpRequest>) -> (r: Vec<Outgoing>)
    ensures
        r@ == Seq::new(requests@.len(), |i: int| Outgoing::Http(requests@[i])),
{
    let mut out: Vec<Outgoing> = Vec::new();
    for request in it: requests
        invariant
            out@ =~= Seq::new(it.index() as nat, |i: int| Outgoing::Http(it.seq()[i])),
            it.seq() == requests@,
    {
        out.push(Outgoing::Http(request));
    }
    out
}

impl Command for EstopCommand {
    open spec fn effect(
        &self,
        before: CommandContextView,
        after: CommandContextView,
        sent: Seq<Outgoing>,
    ) -> bool {
        &&& after == before.reset()
        &&& requests_for_all(before, sent, |n: u8| before.api.estop_request(n))
    }

    fn execute(&self, ctx: &mut CommandContext) -> (sent: Vec<Outgoing>) {
        ctx.reset_drive_state();
        pack(ctx.api.estop_all())
    }
}

impl Command for ClearErrorsCommand {
    open spec fn effect(
        &self,
        before: CommandContextView,
        after: CommandContextView,
        sent: Seq<Outgoing>,
    ) -> bool {
        &&& after == before.reset()
        &&& requests_for_all(before, sent, |n: u8| before.api.clear_errors_request(n))
    }

    fn execute(&self, ctx: &mut CommandContext) -> (sent: Vec<Outgoing>) {
        ctx.reset_drive_state();
        pack(ctx.api.clear_errors_all())
    }
}

/// After an emergency stop or a clearing of errors, the next drive command sets
/// up every node again.
pub proof fn nodes_are_set_up_again(
    before: CommandContextView,
    after: CommandContextView,
    sent: Seq<Outgoing>,
    cmd: DriveCommand,
    i: int,
)
    requires
        EstopCommand.effect(before, after, sent) || ClearErrorsCommand.effect(before, after, sent),
        0 <= i < after.nodes().len(),
        !after.nodes().take(i).contains(after.nodes()[i]),
    ensures
        cmd.command_at(after, i).axis_state == Some(AXIS_CLOSED_LOOP),
        cmd.command_at(after, i).control_mode == Some(
            crate::command_router::commands::drive::control_mode_of(after.drive_mode),
        ),
        cmd.command_at(after, i).input_mode == Some(INPUT_PASSTHROUGH),
{
    crate::command_router::commands::drive::drive_after_reset_sets_up_nodes(cmd, before, i);
}

/// Whether `item` is the request that stops `node`.
pub open spec fn is_stop_of(ctx: CommandContextView, item: Outgoing, node: u8) -> bool {
    item matches Outgoing::Http(request) && request@ == ctx.api.estop_request(node)
}

/// Whether `item` is the request that stops some known node.
pub open spec fn is_stop(ctx: CommandContextView, item: Outgoing) -> bool {
    exists|n: u8| ctx.api.nodes.contains_key(n) && #[trigger] is_stop_of(ctx, item, n)
}

/// An emergency stop reaches every known node, and sends nothing else.
pub proof fn every_known_node_is_stopped(
    before: CommandContextView,
    after: CommandContextView,
    sent: Seq<Outgoing>,
)
    requires
        EstopCommand.effect(before, after, sent),
    ensures
        forall|n: u8|
            before.api.nodes.contains_key(n) ==> exists|k: int|
                0 <= k < sent.len() && #[trigger] is_stop_of(before, sent[k], n),
        forall|k: int| 0 <= k < sent.len() ==> is_stop(before, #[trigger] sent[k]),
{
    let of = |n: u8| before.api.estop_request(n);
    let requests = choose|requests: Seq<HttpRequest>| #[trigger]
        before.api.covers_nodes(requests, of) && sent == Seq::new(
            requests.len(),
            |i: int| Outgoing::Http(requests[i]),
        );
    let ids = choose|ids: Seq<u8>| #[trigger]
        crate::command_router::api_client::are_nodes(before.api.nodes, ids) && requests.len()
            == ids.len() && forall|i: int|
            0 <= i < ids.len() ==> (#[trigger] requests[i])@ == of(ids[i]);
    assert forall|n: u8| before.api.nodes.contains_key(n) implies exists|k: int|
        0 <= k < sent.len() && #[trigger] is_stop_of(before, sent[k], n) by {
        assert(ids.contains(n));
        let k = choose|k: int| 0 <= k < ids.len() && ids[k] == n;
        assert(requests[k]@ == of(ids[k]));
        assert(is_stop_of(before, sent[k], n));
    }
    assert forall|k: int| 0 <= k < sent.len() implies is_stop(before, #[trigger] sent[k]) by {
        assert(requests[k]@ == of(ids[k]));
        assert(ids.contains(ids[k]));
        assert(is_stop_of(before, sent[k], ids[k]));
    }
}

/// Whether `sent` is one posted request for each known node, in ascending order,
/// with the same body and to the same path of the node.
pub open spec fn posts_to_all(
    ctx: CommandContextView,
    sent: Seq<Outgoing>,
    ids: Seq<u8>,
    what: Seq<char>,
    body: Option<Seq<u8>>,
) -> bool {
    &&& forall|i: int, j: int| 0 <= i < j < ids.len() ==> ids[i] < ids[j]
    &&& forall|n: u8| #[trigger] ids.contains(n) <==> ctx.api.nodes.contains_key(n)
    &&& sent.len() == ids.len()
    &&& forall|k: int|
        0 <= k < sent.len() ==> (#[trigger] sent[k] matches Outgoing::Http(request) && request@ == (
        HttpRequestView {
            post: true,
            url: ctx.api.base_url + "/odrive_"@ + crate::text::decimal(ids[k] as nat) + what,
            body,
        }))
}

/// An emergency stop posts to the path `estop` of every known node, once and without
/// a body. Nothing is remembered as sent afterwards, and nothing else changes.
pub proof fn emergency_stops_are_posted_to_every_node(
    before: CommandContextView,
    after: CommandContextView,
    sent: Seq<Outgoing>,
)
    requires
        EstopCommand.effect(before, after, sent),
    ensures
        exists|ids: Seq<u8>| #[trigger] posts_to_all(before, sent, ids, "/estop"@, None),
        after == (CommandContextView { node_drive_state: Map::empty(), ..before }),
{
    let of = |n: u8| before.api.estop_request(n);
    lemma_posts(before, sent, of, "/estop"@, None);
}

/// The text of the document that asks for errors to be cleared.
pub open spec fn clear_errors_document() -> Seq<u8> {
    "{\"clear_errors\":true}"@.map_values(|c: char| c as u8)
}

/// Clearing errors posts to the path `command` of every known node, once and with the
/// document that asks for it. Nothing is remembered as sent afterwards, and nothing
/// else changes.
pub proof fn clearing_errors_is_posted_to_every_node(
    before: CommandContextView,
    after: CommandContextView,
    sent: Seq<Outgoing>,
)
    requires
        ClearErrorsCommand.effect(before, after, sent),
    ensures
        exists|ids: Seq<u8>| #[trigger]
            posts_to_all(
                before,
                sent,
                ids,
                "/command"@,
                Some(clear_errors_document()),
            ),
        after == (CommandContextView { node_drive_state: Map::empty(), ..before }),
{
    let of = |n: u8| before.api.clear_errors_request(n);
    lemma_posts(
        before,
        sent,
        of,
        "/command"@,
        Some(clear_errors_document()),
    );
}

proof fn lemma_posts(
    ctx: CommandContextView,
    sent: Seq<Outgoing>,
    of: spec_fn(u8) -> HttpRequestView,
    what: Seq<char>,
    body: Option<Seq<u8>>,
)
    requires
        requests_for_all(ctx, sent, of),
        (what == "/estop"@ && body is None && of == |n: u8| ctx.api.estop_request(n)) || (what
            == "/command"@ && body == Some(clear_errors_document()) && of == |n: u8| ctx.api.clear_errors_request(n)),
    ensures
        exists|ids: Seq<u8>| #[trigger] posts_to_all(ctx, sent, ids, what, body),
{
    let requests = choose|requests: Seq<HttpRequest>| #[trigger]
        ctx.api.covers_nodes(requests, of) && sent == Seq::new(
            requests.len(),
            |i: int| Outgoing::Http(requests[i]),
        );
    let ids = choose|ids: Seq<u8>| #[trigger]
        crate::command_router::api_client::are_nodes(ctx.api.nodes, ids) && requests.len()
            == ids.len() && forall|i: int|
            0 <= i < ids.len() ==> (#[trigger] requests[i])@ == of(ids[i]);
    assert forall|k: int| 0 <= k < sent.len() implies (
    #[trigger] sent[k] matches Outgoing::Http(request) && request@ == (HttpRequestView {
        post: true,
        url: ctx.api.base_url + "/odrive_"@ + crate::text::decimal(ids[k] as nat) + what,
        body,
    })) by {
        assert(requests[k]@ == of(ids[k]));
        crate::command_router::api_client::requests_name_their_node(ctx.api, ids[k]);
    }
    assert(posts_to_all(ctx, sent, ids, what, body));
}

} // verus!
