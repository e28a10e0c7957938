//! What the router says to the drive API.
//!
//! HTTP for discovery, emergency stop and state; UDP packets for streaming
//! drive commands. The requests and packets are made here, and carried by the
//! program.
use std::collections::HashMap;

use vstd::prelude::*;

use crate::frame::{following_seq, frame, MSG_COMMAND};
use crate::json::{parse_json, write_single_field, Json, JsonScalar, JsonTree, NotJson};
use crate::text::{append_decimal, chars_of, endpoint, parse_u8};

verus! {

broadcast use vstd::std_specs::hash::group_hash_axioms;

/// A drive node, as discovery reports it.
#[derive(Clone, Copy, Debug, PartialEq, Eq, Structural)]
pub struct NodeInfo {
    pub node_id: u8,
    pub command_port: u16,
    pub data_port: u16,
}

/// Why an answer of the API could not be used.
#[derive(Clone, Copy, Debug, PartialEq, Eq, Structural)]
pub enum ApiError {
    /// The answer is no JSON document.
    NotJson,
    /// The answer to a discovery request lists no sensors.
    BadDiscovery,
}

/// An HTTP request. One without a body is a GET, or a POST of nothing.
#[derive(Debug)]
pub struct HttpRequest {
    pub post: bool,
    pub url: String,
    pub body: Option<Vec<u8>>,
}

/// The mathematical content of a request.
pub struct HttpRequestView {
    pub post: bool,
    pub url: Seq<char>,
    pub body: Option<Seq<u8>>,
}

impl View for HttpRequest {
    type V = HttpRequestView;

    open spec fn view(&self) -> HttpRequestView {
        HttpRequestView {
            post: self.post,
            url: self.url@,
            body: match self.body {
                Some(b) => Some(b@),
                None => None,
            },
        }
    }
}

/// A UDP packet and where it goes.
#[derive(Debug)]
pub struct Datagram {
    pub address: String,
    pub bytes: Vec<u8>,
}

/// The API as the router knows it: where it is, which nodes it reported, and
/// the sequence number of the next packet to each.
pub struct ApiClient {
    host: String,
    base_url: String,
    seqs: HashMap<u8, u16>,
    nodes: HashMap<u8, NodeInfo>,
}

/// The mathematical content of an [`ApiClient`].
pub struct ApiClientView {
    pub host: Seq<char>,
    pub base_url: Seq<char>,
    pub seqs: Map<u8, u16>,
    pub nodes: Map<u8, NodeInfo>,
}

impl View for ApiClient {
    type V = ApiClientView;

    closed spec fn view(&self) -> ApiClientView {
        ApiClientView {
            host: self.host@,
            base_url: self.base_url@,
            seqs: self.seqs@,
            nodes: self.nodes@,
        }
    }
}

impl ApiClientView {
    /// The sequence number of the next packet to `node`.
    pub open spec fn next_seq(self, node: u8) -> u16 {
        if self.seqs.contains_key(node) {
            self.seqs[node]
        } else {
            0
        }
    }

    /// The request that concerns one node.
    pub open spec fn node_request(self, post: bool, node: u8, what: Seq<char>, body: Option<Seq<u8>>) -> HttpRequestView {
        HttpRequestView { post, url: self.base_url + node_path(node, what), body }
    }

    /// The request that stops `node`.
    pub open spec fn estop_request(self, node: u8) -> HttpRequestView {
        self.node_request(true, node, "/estop"@, None)
    }

    /// The request that clears the errors of `node`.
    pub open spec fn clear_errors_request(self, node: u8) -> HttpRequestView {
        self.node_request(true, node, "/command"@, Some(clear_errors_body()))
    }
}

/// Whether `packet` is what carries a drive command to a node, and `after` the
/// client that has counted up the sequence number of the node. For a node that
/// is not known there is no packet, and the client stays as it was.
pub open spec fn is_drive_packet(
    before: ApiClientView,
    after: ApiClientView,
    node_id: u8,
    payload: Seq<u8>,
    packet: Option<Datagram>,
) -> bool {
    match packet {
        Some(p) => {
            &&& before.nodes.contains_key(node_id)
            &&& p.address@ == crate::text::endpoint_text(
                before.host,
                before.nodes[node_id].command_port,
            )
            &&& p.bytes@ == crate::frame::frame_bytes(
                MSG_COMMAND,
                before.next_seq(node_id),
                payload,
            )
            &&& after == (ApiClientView {
                seqs: before.seqs.insert(
                    node_id,
                    crate::frame::seq_after(before.next_seq(node_id)),
                ),
                ..before
            })
        },
        None => !before.nodes.contains_key(node_id) && after == before,
    }
}

/// The path of a node, and below it.
pub open spec fn node_path(node: u8, what: Seq<char>) -> Seq<char> {
    "/odrive_"@ + crate::text::decimal(node as nat) + what
}

/// The text that asks for errors to be cleared.
pub open spec fn clear_errors_body() -> Seq<u8> {
    crate::json::single_field_text("clear_errors"@, JsonScalar::Flag(true))
}

/// The number of the drive node that a sensor id names.
pub open spec fn node_number(id: Seq<char>) -> Option<u8> {
    let prefix = "odrive_"@;
    if prefix.is_prefix_of(id) {
        crate::text::u8_value(id.skip(prefix.len() as int))
    } else {
        None
    }
}

/// The low 16 bits of an optional number, 0 where there is none.
pub open spec fn port_number(n: Option<u64>) -> u16 {
    match n {
        Some(v) => (v % 0x1_0000) as u16,
        None => 0,
    }
}

/// The drive node that an entry of a discovery answer describes.
pub open spec fn node_in(sensor: JsonTree) -> Option<NodeInfo> {
    match sensor.text_at("id"@) {
        Some(id) => match node_number(id) {
            Some(node_id) => Some(
                NodeInfo {
                    node_id,
                    command_port: port_number(sensor.u64_at("command_port"@)),
                    data_port: port_number(sensor.u64_at("data_port"@)),
                },
            ),
            None => None,
        },
        None => None,
    }
}

/// The drive nodes that a list of sensors describes; of two entries for one
/// node the later counts.
pub open spec fn nodes_in(sensors: Seq<JsonTree>) -> Map<u8, NodeInfo>
    decreases sensors.len(),
{
    if sensors.len() == 0 {
        Map::empty()
    } else {
        match node_in(sensors.last()) {
            Some(info) => nodes_in(sensors.drop_last()).insert(info.node_id, info),
            None => nodes_in(sensors.drop_last()),
        }
    }
}

/// The drive nodes of a discovery answer.
pub open spec fn discovered(answer: JsonTree) -> Option<Map<u8, NodeInfo>> {
    match answer.get("sensors"@) {
        Some(sensors) => match sensors.as_list() {
            Some(items) => Some(nodes_in(items)),
            None => None,
        },
        None => None,
    }
}

/// The low 16 bits of an optional number.
fn port_of(n: Option<u64>) -> (r: u16)
    ensures
        r == port_number(n),
{
    match n {
        Some(v) => (v % 0x1_0000) as u16,
        None => 0,
    }
}

/// Reads the number of a drive node off a sensor id.
fn number_of_node(id: &str) -> (r: Option<u8>)
    ensures
        r == node_number(id@),
{
    let text = chars_of(id);
    let prefix = chars_of("odrive_");
    if text.len() < prefix.len() {
        return None;
    }
    for i in 0..prefix.len()
        invariant
            prefix@ == "odrive_"@,
            text@ == id@,
            prefix@.len() <= text@.len(),
            forall|j: int| 0 <= j < i ==> prefix@[j] == text@[j],
    {
        if text[i] != prefix[i] {
            assert(prefix@[i as int] != id@[i as int]);
            assert(!prefix@.is_prefix_of(id@));
            return None;
        }
    }
    assert(prefix@ =~= id@.subrange(0, prefix@.len() as int));
    parse_u8(&text, prefix.len())
}

/// Reads an entry of a discovery answer.
fn node_of(sensor: &Json) -> (r: Option<NodeInfo>)
    ensures
        r == node_in(sensor@),
{
    match sensor.text_at("id") {
        Some(id) => match number_of_node(id) {
            Some(node_id) => Some(
                NodeInfo {
                    node_id,
                    command_port: port_of(sensor.u64_at("command_port")),
                    data_port: port_of(sensor.u64_at("data_port")),
                },
            ),
            None => None,
        },
        None => None,
    }
}

impl ApiClient {
    /// A client of the API at `host`, which knows no node yet.
    pub fn new(host: &str, http_port: u16) -> (r: ApiClient)
        ensures
            r@ == (ApiClientView {
                host: host@,
                base_url: "http://"@ + crate::text::endpoint_text(host@, http_port),
                seqs: Map::empty(),
                nodes: Map::empty(),
            }),
    {
        let mut base_url = "http://".to_owned();
        base_url.append(endpoint(host, http_port).as_str());
        ApiClient { host: host.to_owned(), base_url, seqs: HashMap::new(), nodes: HashMap::new() }
    }

    /// The request that starts discovery.
    pub fn discover_request(&self) -> (r: HttpRequest)
        ensures
            r@ == (HttpRequestView { post: false, url: self@.base_url + "/discover"@, body: None }),
    {
        let mut url = self.base_url.clone();
        url.append("/discover");
        HttpRequest { post: false, url, body: None }
    }

    /// Takes over the nodes that a discovery answer lists, and hands them out.
    /// An answer without a list of sensors leaves the client as it was.
    pub fn adopt(&mut self, answer: &Json) -> (r: Result<HashMap<u8, NodeInfo>, ApiError>)
        ensures
            match r {
                Ok(nodes) => {
                    &&& discovered(answer@) == Some(nodes@)
                    &&& final(self)@ == (ApiClientView { nodes: nodes@, ..old(self)@ })
                },
                Err(e) => {
                    &&& discovered(answer@) is None
                    &&& e == ApiError::BadDiscovery
                    &&& final(self)@ == old(self)@
                },
            },
    {
        let sensors = match answer.get("sensors") {
            Some(sensors) => sensors,
            None => return Err(ApiError::BadDiscovery),
        };
        let items = match sensors.as_list() {
            Some(items) => items,
            None => return Err(ApiError::BadDiscovery),
        };
        let ghost trees = sensors@.as_list()->0;
        let mut nodes: HashMap<u8, NodeInfo> = HashMap::new();
        for i in 0..items.len()
            invariant
                trees.len() == items@.len(),
                forall|j: int| 0 <= j < items@.len() ==> (#[trigger] items@[j])@ == trees[j],
                nodes@ == nodes_in(trees.take(i as int)),
        {
            assert(trees.take(i + 1).drop_last() =~= trees.take(i as int));
            assert(trees.take(i + 1).last() == items@[i as int]@);
            match node_of(&items[i]) {
                Some(info) => {
                    nodes.insert(info.node_id, info);
                },
                None => {},
            }
        }
        assert(trees.take(items@.len() as int) =~= trees);
        self.nodes = nodes.clone();
        Ok(nodes)
    }

    /// Takes over the nodes that the text of a discovery answer lists.
    pub fn discover(&mut self, text: &[u8]) -> (r: Result<HashMap<u8, NodeInfo>, ApiError>)
        ensures
            match crate::json::json_document(text@) {
                None => r == Err::<HashMap<u8, NodeInfo>, _>(ApiError::NotJson) && final(self)@
                    == old(self)@,
                Some(answer) => match r {
                    Ok(nodes) => {
                        &&& discovered(answer) == Some(nodes@)
                        &&& final(self)@ == (ApiClientView { nodes: nodes@, ..old(self)@ })
                    },
                    Err(e) => {
                        &&& discovered(answer) is None
                        &&& e == ApiError::BadDiscovery
                        &&& final(self)@ == old(self)@
                    },
                },
            },
    {
        match parse_json(text) {
            Ok(answer) => self.adopt(&answer),
            Err(_) => Err(ApiError::NotJson),
        }
    }

    /// The known nodes, in ascending order.
    pub fn node_ids(&self) -> (r: Vec<u8>)
        ensures
            are_nodes(self@.nodes, r@),
    {
        let mut out: Vec<u8> = Vec::new();
        for n in 0..256u16
            invariant
                forall|i: int, j: int| 0 <= i < j < out@.len() ==> out@[i] < out@[j],
                forall|i: int| 0 <= i < out@.len() ==> #[trigger] out@[i] < n,
                forall|k: u8| #[trigger] out@.contains(k) <==> k < n && self.nodes@.contains_key(k),
        {
            let id = n as u8;
            let ghost before = out@;
            if self.nodes.contains_key(&id) {
                out.push(id);
                proof {
                    assert(out@[before.len() as int] == id);
                    assert forall|k: u8| #[trigger] out@.contains(k) <==> k < n + 1
                        && self.nodes@.contains_key(k) by {
                        if before.contains(k) {
                            let i = choose|i: int| 0 <= i < before.len() && before[i] == k;
                            assert(out@[i] == k);
                        }
                        if out@.contains(k) {
                            let i = choose|i: int| 0 <= i < out@.len() && out@[i] == k;
                            if i < before.len() {
                                assert(before[i] == k);
                            }
                        }
                    }
                }
            }
        }
        out
    }

    /// The address of `path` on the API.
    fn url(&self, node: u8, what: &str) -> (r: String)
        ensures
            r@ == self@.base_url + node_path(node, what@),
    {
        let mut url = self.base_url.clone();
        url.append("/odrive_");
        append_decimal(&mut url, node as u64);
        url.append(what);
        assert(url@ =~= self@.base_url + node_path(node, what@));
        url
    }

    /// The request for the telemetry of a node.
    pub fn get_data(&self, node_id: u8) -> (r: HttpRequest)
        ensures
            r@ == self@.node_request(false, node_id, "/data"@, None),
    {
        HttpRequest { post: false, url: self.url(node_id, "/data"), body: None }
    }

    /// The packet that carries a drive command to a node, which counts up the
    /// sequence number of the node; nothing for a node that is not known.
    pub fn send_drive_udp(&mut self, node_id: u8, payload: &[u8]) -> (r: Option<Datagram>)
        ensures
            is_drive_packet(old(self)@, final(self)@, node_id, payload@, r),
    {
        let port = match self.nodes.get(&node_id) {
            Some(info) => info.command_port,
            None => return None,
        };
        let seq = match self.seqs.get(&node_id) {
            Some(seq) => *seq,
            None => 0,
        };
        let bytes = frame(MSG_COMMAND, seq, payload);
        self.seqs.insert(node_id, following_seq(seq));
        Some(Datagram { address: endpoint(self.host.as_str(), port), bytes })
    }

    /// The request that stops a node.
    pub fn estop(&self, node_id: u8) -> (r: HttpRequest)
        ensures
            r@ == self@.estop_request(node_id),
    {
        HttpRequest { post: true, url: self.url(node_id, "/estop"), body: None }
    }

    /// The requests that stop every known node. Each is to be made, whatever
    /// comes of the others.
    pub fn estop_all(&self) -> (r: Vec<HttpRequest>)
        ensures
            self@.covers_nodes(r@, |n: u8| self@.estop_request(n)),
    {
        let ids = self.node_ids();
        let mut out: Vec<HttpRequest> = Vec::new();
        for i in 0..ids.len()
            invariant
                out@.len() == i,
                forall|j: int| 0 <= j < i ==> (#[trigger] out@[j])@ == self@.estop_request(ids@[j]),
        {
            out.push(self.estop(ids[i]));
        }
        out
    }

    /// The request that clears the errors of a node.
    pub fn clear_errors(&self, node_id: u8) -> (r: HttpRequest)
        ensures
            r@ == self@.clear_errors_request(node_id),
    {
        proof {
            reveal_strlit("clear_errors");
        }
        HttpRequest {
            post: true,
            url: self.url(node_id, "/command"),
            body: Some(write_single_field("clear_errors", JsonScalar::Flag(true))),
        }
    }

    /// The requests that clear the errors of every known node. Each is to be
    /// made, whatever comes of the others.
    pub fn clear_errors_all(&self) -> (r: Vec<HttpRequest>)
        ensures
            self@.covers_nodes(r@, |n: u8| self@.clear_errors_request(n)),
    {
        let ids = self.node_ids();
        let mut out: Vec<HttpRequest> = Vec::new();
        for i in 0..ids.len()
            invariant
                out@.len() == i,
                forall|j: int|
                    0 <= j < i ==> (#[trigger] out@[j])@ == self@.clear_errors_request(ids@[j]),
        {
            out.push(self.clear_errors(ids[i]));
        }
        out
    }
}

/// Whether `ids` lists the nodes of `nodes`, each once and in ascending order.
pub open spec fn are_nodes(nodes: Map<u8, NodeInfo>, ids: Seq<u8>) -> bool {
    &&& forall|i: int, j: int| 0 <= i < j < ids.len() ==> ids[i] < ids[j]
    &&& forall|n: u8| ids.contains(n) <==> nodes.contains_key(n)
}

impl ApiClientView {
    /// Whether `requests` are the requests that `of` gives, one for each known
    /// node in ascending order.
    pub open spec fn covers_nodes(
        self,
        requests: Seq<HttpRequest>,
        of: spec_fn(u8) -> HttpRequestView,
    ) -> bool {
        exists|ids: Seq<u8>| #[trigger]
            are_nodes(self.nodes, ids) && requests.len() == ids.len() && forall|i: int|
                0 <= i < ids.len() ==> (#[trigger] requests[i])@ == of(ids[i])
    }
}

/// Reads the answer to a GET request.
pub fn read_get_answer(text: &[u8]) -> (r: Result<Json, NotJson>)
    ensures
        crate::json::reads(r, crate::json::json_document(text@)),
{
    parse_json(text)
}

/// Reads the answer to a POST request; one that is no JSON counts as null.
pub fn read_post_answer(text: &[u8]) -> (r: Json)
    ensures
        r@ == match crate::json::json_document(text@) {
            Some(t) => t,
            None => JsonTree::Null,
        },
{
    match parse_json(text) {
        Ok(j) => j,
        Err(_) => Json::Null,
    }
}

/// A drive command to a node counts up its sequence number, around the end of
/// its range, and that of no other node.
pub proof fn drive_packets_are_numbered(
    before: ApiClientView,
    after: ApiClientView,
    node: u8,
    payload: Seq<u8>,
    packet: Datagram,
)
    requires
        is_drive_packet(before, after, node, payload, Some(packet)),
    ensures
        crate::frame::frame_parts(packet.bytes@) == Some(
            (MSG_COMMAND, before.next_seq(node), payload),
        ),
        after.next_seq(node) == crate::frame::seq_after(before.next_seq(node)),
        forall|other: u8|
            other != node ==> #[trigger] after.next_seq(other) == before.next_seq(other),
{
    crate::frame::parse_inverts_frame(MSG_COMMAND, before.next_seq(node), payload);
}

/// Requests about a node go to its path below the address of the API: its
/// telemetry is got, the other two are posted, and errors are cleared with a
/// document that says so.
pub proof fn requests_name_their_node(api: ApiClientView, node: u8)
    ensures
        ({
            let path = api.base_url + "/odrive_"@ + crate::text::decimal(node as nat);
            &&& api.estop_request(node) == (HttpRequestView {
                post: true,
                url: path + "/estop"@,
                body: None,
            })
            &&& api.clear_errors_request(node) == (HttpRequestView {
                post: true,
                url: path + "/command"@,
                body: Some("{\"clear_errors\":true}"@.map_values(|c: char| c as u8)),
            })
            &&& api.node_request(false, node, "/data"@, None) == (HttpRequestView {
                post: false,
                url: path + "/data"@,
                body: None,
            })
        }),
{
    let number = crate::text::decimal(node as nat);
    let path = api.base_url + "/odrive_"@ + number;
    assert(api.base_url + node_path(node, "/estop"@) =~= path + "/estop"@);
    assert(api.base_url + node_path(node, "/command"@) =~= path + "/command"@);
    assert(api.base_url + node_path(node, "/data"@) =~= path + "/data"@);
    reveal_strlit("clear_errors");
    reveal_strlit("true");
    reveal_strlit("{\"clear_errors\":true}");
    assert(clear_errors_body() =~= "{\"clear_errors\":true}"@.map_values(|c: char| c as u8));
}

/// Every known node can be sent a drive command, and no other one. The packet goes
/// to the command port of the node, with the version, the type of a command (16) and
/// the number that the node is due, and carries the command unchanged. That number
/// is zero at first and then counts up by one, around the end of its range; nothing
/// else of the client changes.
pub proof fn drive_packets_reach_known_nodes(
    before: ApiClientView,
    after: ApiClientView,
    node: u8,
    payload: Seq<u8>,
    packet: Option<Datagram>,
)
    requires
        is_drive_packet(before, after, node, payload, packet),
    ensures
        packet is Some <==> before.nodes.contains_key(node),
        packet is None ==> after == before,
        packet matches Some(p) ==> {
            let due: u16 = if before.seqs.contains_key(node) {
                before.seqs[node]
            } else {
                0
            };
            &&& p.address@ == before.host + seq![':'] + crate::text::decimal(
                before.nodes[node].command_port as nat,
            )
            &&& p.bytes@.len() == payload.len() + 4
            &&& p.bytes@[0] == 1
            &&& p.bytes@[1] == 16
            &&& p.bytes@[2] + 0x100 * p.bytes@[3] == due
            &&& p.bytes@.skip(4) == payload
            &&& after.seqs == before.seqs.insert(node, ((due + 1) % 0x1_0000) as u16)
            &&& after.nodes == before.nodes
            &&& after.host == before.host
            &&& after.base_url == before.base_url
        },
{
    if packet is Some {
        assert(packet->0.bytes@.skip(4) =~= payload);
    }
}

/// Sensors are taken one by one: one whose id is `odrive_` and a number from 0 to
/// 255 is the node of that number, with the low 16 bits of its ports, or zero where
/// it has none, and takes the place of an earlier one. Any other adds nothing.
pub proof fn sensors_are_taken_one_by_one(sensors: Seq<JsonTree>, sensor: JsonTree, number: Seq<char>)
    ensures
        nodes_in(Seq::empty()) == Map::<u8, NodeInfo>::empty(),
        sensor.text_at("id"@) == Some("odrive_"@ + number) ==> nodes_in(sensors.push(sensor))
            == match crate::text::u8_value(number) {
            Some(node_id) => nodes_in(sensors).insert(
                node_id,
                NodeInfo {
                    node_id,
                    command_port: match sensor.u64_at("command_port"@) {
                        Some(p) => (p % 65_536) as u16,
                        None => 0,
                    },
                    data_port: match sensor.u64_at("data_port"@) {
                        Some(p) => (p % 65_536) as u16,
                        None => 0,
                    },
                },
            ),
            None => nodes_in(sensors),
        },
        sensor.text_at("id"@) is None ==> nodes_in(sensors.push(sensor)) == nodes_in(sensors),
        sensor.text_at("id"@) matches Some(id) ==> !"odrive_"@.is_prefix_of(id) ==> nodes_in(
            sensors.push(sensor),
        ) == nodes_in(sensors),
{
    let all = sensors.push(sensor);
    assert(all.drop_last() =~= sensors);
    assert(all.last() == sensor);
    let id = "odrive_"@ + number;
    assert("odrive_"@ =~= id.subrange(0, "odrive_"@.len() as int));
    assert(id.skip("odrive_"@.len() as int) =~= number);
}

/// An answer lists nodes exactly where a list stands under `sensors`, and then those
/// of that list.
pub proof fn answers_list_sensors(answer: JsonTree)
    ensures
        discovered(answer) == match answer.get("sensors"@) {
            Some(JsonTree::List(items)) => Some(nodes_in(items)),
            _ => None,
        },
{
}

} // verus!
