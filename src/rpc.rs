//! The JSON-RPC client of one tool-provider process, without the process:
//! it allocates request ids, writes request and notification lines, reads
//! reply lines and routes each reply to the request that awaits it. The
//! caller owns the pipes and the clock and reports what happened on them.
use vstd::prelude::*;

use crate::error::BridgeError;
use crate::json::{
    decode_json, decoded_json, encode_json, encoded_json, field, member_of, text_field, JsonNumber,
    JsonValue,
};
use crate::text::{push_char, text_copy};

verus! {

/// Where a client stands in its life. There is no way back to `Connected`
/// from `Disconnected`: a new client must be made.
#[derive(Clone, Copy, Debug, PartialEq, Eq, Structural)]
pub enum ConnectionState {
    Unconnected,
    Connecting,
    Connected,
    Disconnected,
}

/// The id of a reply, when it carries an unsigned integer id.
pub open spec fn reply_id(doc: JsonValue) -> Option<u64> {
    match field(doc, "id"@) {
        Some(JsonValue::Number(n)) => crate::json::u64_of(n),
        _ => None,
    }
}

/// A field that is present and not `null`.
pub open spec fn present(v: Option<JsonValue>) -> bool {
    match v {
        Some(JsonValue::Null) => false,
        Some(_) => true,
        None => false,
    }
}

/// The code and message of a reply's error object, when it has a
/// well-formed one.
pub open spec fn error_of(doc: JsonValue) -> Option<(i64, Seq<char>)> {
    match field(doc, "error"@) {
        Some(e) => match (field(e, "code"@), text_field(e, "message"@)) {
            (Some(JsonValue::Number(n)), Some(m)) => match crate::json::i64_of(n) {
                Some(c) => Some((c, m)),
                None => None,
            },
            _ => None,
        },
        None => None,
    }
}

/// The kinds of line that a provider writes.
pub enum IncomingKind {
    Reply,
    Call,
    Notice,
    Unreadable,
}

/// The kind of a decoded line: a reply carries an id and a result or a
/// well-formed error; a call carries an id and a method; a notification
/// carries a method and no id.
pub open spec fn kind_of(doc: JsonValue) -> IncomingKind {
    if reply_id(doc) is Some {
        if text_field(doc, "method"@) is Some {
            IncomingKind::Call
        } else if error_of(doc) is Some || (!present(field(doc, "error"@)) && field(doc, "result"@) is Some) {
            IncomingKind::Reply
        } else {
            IncomingKind::Unreadable
        }
    } else if text_field(doc, "method"@) is Some {
        IncomingKind::Notice
    } else {
        IncomingKind::Unreadable
    }
}

/// Whether `out` is the outcome that `doc` carries.
pub open spec fn outcome_matches(doc: JsonValue, out: Result<JsonValue, BridgeError>) -> bool {
    match (error_of(doc), out) {
        (Some((code, m)), Err(BridgeError::Rpc { code: c, message })) => c == code && message@ == m,
        (Some(_), _) => false,
        (None, Ok(v)) => present(field(doc, "result"@)) && v == field(doc, "result"@)->0,
        (None, Err(BridgeError::Protocol(_))) => !present(field(doc, "result"@)),
        (None, _) => false,
    }
}

/// A line read from a provider.
pub enum Incoming {
    /// A reply to request `id`.
    Reply { id: u64, outcome: Result<JsonValue, BridgeError> },
    /// A request from the provider to the client, which this client does not serve.
    Call { id: u64, method: String },
    /// A notification: no reply is expected.
    Notice { method: String },
    /// Not JSON, or JSON of no known shape.
    Unreadable,
}

/// What a decoded line is.
pub fn classify_document(doc: JsonValue) -> (r: Incoming)
    ensures
        match r {
            Incoming::Reply { id, outcome } => kind_of(doc) is Reply && reply_id(doc) == Some(id)
                && outcome_matches(doc, outcome),
            Incoming::Call { id, method } => kind_of(doc) is Call && reply_id(doc) == Some(id)
                && text_field(doc, "method"@) == Some(method@),
            Incoming::Notice { method } => kind_of(doc) is Notice && text_field(doc, "method"@) == Some(method@),
            Incoming::Unreadable => kind_of(doc) is Unreadable,
        },
{
    let id = match doc.get("id") {
        Some(JsonValue::Number(n)) => n.as_u64(),
        _ => None,
    };
    let method = match doc.text_field("method") {
        Some(m) => Some(m.clone()),
        None => None,
    };
    let error = match doc.get("error") {
        Some(e) => match (e.get("code"), e.text_field("message")) {
            (Some(JsonValue::Number(n)), Some(m)) => match n.as_i64() {
                Some(c) => Some((c, m.clone())),
                None => None,
            },
            _ => None,
        },
        None => None,
    };
    let error_present = match doc.get("error") {
        Some(JsonValue::Null) => false,
        Some(_) => true,
        None => false,
    };
    let has_result = doc.get("result").is_some();
    let result_present = match doc.get("result") {
        Some(JsonValue::Null) => false,
        Some(_) => true,
        None => false,
    };
    match id {
        Some(id) => match method {
            Some(m) => Incoming::Call { id, method: m },
            None => match error {
                Some((code, message)) => Incoming::Reply { id, outcome: Err(BridgeError::Rpc { code, message }) },
                None => if !error_present && has_result {
                    if result_present {
                        match doc.into_field("result") {
                            Some(v) => Incoming::Reply { id, outcome: Ok(v) },
                            None => Incoming::Unreadable,
                        }
                    } else {
                        Incoming::Reply {
                            id,
                            outcome: Err(BridgeError::Protocol(text_copy("empty response"))),
                        }
                    }
                } else {
                    Incoming::Unreadable
                },
            },
        },
        None => match method {
            Some(m) => Incoming::Notice { method: m },
            None => Incoming::Unreadable,
        },
    }
}

/// What a line read from a provider is.
pub fn classify_line(line: &str) -> (r: Incoming)
    ensures
        match decoded_json(line@) {
            None => r is Unreadable,
            Some(doc) => match r {
                Incoming::Reply { id, outcome } => kind_of(doc) is Reply && reply_id(doc) == Some(id)
                    && outcome_matches(doc, outcome),
                Incoming::Call { id, method } => kind_of(doc) is Call && reply_id(doc) == Some(id)
                    && text_field(doc, "method"@) == Some(method@),
                Incoming::Notice { method } => kind_of(doc) is Notice && text_field(doc, "method"@)
                    == Some(method@),
                Incoming::Unreadable => kind_of(doc) is Unreadable,
            },
        },
{
    match decode_json(line) {
        Some(doc) => classify_document(doc),
        None => Incoming::Unreadable,
    }
}

/// Whether `v` is the JSON string with text `t`.
pub open spec fn is_text(v: JsonValue, t: Seq<char>) -> bool {
    v is Str && v->Str_0@ == t
}

/// Whether `doc` is exactly the request envelope
/// `{"jsonrpc": "2.0", "id": id, "method": method, "params": params}`,
/// members in that order.
pub open spec fn is_request_doc(doc: JsonValue, id: u64, method: Seq<char>, params: JsonValue) -> bool {
    match doc {
        JsonValue::Object(m) => {
            &&& m@.len() == 4
            &&& m@[0].0@ == "jsonrpc"@ && is_text(m@[0].1, "2.0"@)
            &&& m@[1].0@ == "id"@ && m@[1].1 == JsonValue::Number(JsonNumber::PosInt(id))
            &&& m@[2].0@ == "method"@ && is_text(m@[2].1, method)
            &&& m@[3].0@ == "params"@ && m@[3].1 == params
        },
        _ => false,
    }
}

/// Whether `doc` is exactly the notification envelope
/// `{"jsonrpc": "2.0", "method": method, "params": params}`, members in that order.
pub open spec fn is_notification_doc(doc: JsonValue, method: Seq<char>, params: JsonValue) -> bool {
    match doc {
        JsonValue::Object(m) => {
            &&& m@.len() == 3
            &&& m@[0].0@ == "jsonrpc"@ && is_text(m@[0].1, "2.0"@)
            &&& m@[1].0@ == "method"@ && is_text(m@[1].1, method)
            &&& m@[2].0@ == "params"@ && m@[2].1 == params
        },
        _ => false,
    }
}

/// A line of JSON text: the document, then a newline.
pub open spec fn line_of(doc: JsonValue) -> Seq<char> {
    encoded_json(doc).push('\n')
}

/// The JSON string holding `t`.
fn json_text(t: &str) -> (r: JsonValue)
    ensures
        r == JsonValue::Str(r->Str_0) && r->Str_0@ == t@,
{
    JsonValue::Str(text_copy(t))
}

/// The request envelope.
fn request_document(id: u64, method: &str, params: JsonValue) -> (r: JsonValue)
    ensures
        is_request_doc(r, id, method@, params),
{
    let mut m: Vec<(String, JsonValue)> = Vec::new();
    m.push((text_copy("jsonrpc"), json_text("2.0")));
    m.push((text_copy("id"), JsonValue::Number(JsonNumber::PosInt(id))));
    m.push((text_copy("method"), json_text(method)));
    m.push((text_copy("params"), params));
    JsonValue::Object(m)
}

/// The notification envelope.
fn notification_document(method: &str, params: JsonValue) -> (r: JsonValue)
    ensures
        is_notification_doc(r, method@, params),
{
    let mut m: Vec<(String, JsonValue)> = Vec::new();
    m.push((text_copy("jsonrpc"), json_text("2.0")));
    m.push((text_copy("method"), json_text(method)));
    m.push((text_copy("params"), params));
    JsonValue::Object(m)
}

/// The line that carries `doc`.
fn document_line(doc: &JsonValue) -> (r: String)
    ensures
        r@ == line_of(*doc),
{
    let mut s = encode_json(doc);
    push_char(&mut s, '\n');
    s
}

/// The params of the `initialize` request: the protocol version, this
/// client's name and version, and the capabilities it offers.
pub fn initialize_params() -> (r: JsonValue)
    ensures
        text_field(r, "protocolVersion"@) == Some("0.1.0"@),
        field(r, "clientInfo"@) is Some,
        field(r, "capabilities"@) is Some,
{
    let mut info: Vec<(String, JsonValue)> = Vec::new();
    info.push((text_copy("name"), json_text("AgentX")));
    info.push((text_copy("version"), json_text("0.1.0")));
    let mut roots: Vec<(String, JsonValue)> = Vec::new();
    roots.push((text_copy("listChanged"), JsonValue::Bool(true)));
    let mut caps: Vec<(String, JsonValue)> = Vec::new();
    caps.push((text_copy("sampling"), JsonValue::Object(Vec::new())));
    caps.push((text_copy("roots"), JsonValue::Object(roots)));
    let mut m: Vec<(String, JsonValue)> = Vec::new();
    m.push((text_copy("protocolVersion"), json_text("0.1.0")));
    m.push((text_copy("clientInfo"), JsonValue::Object(info)));
    m.push((text_copy("capabilities"), JsonValue::Object(caps)));
    proof {
        reveal_strlit("protocolVersion");
        reveal_strlit("clientInfo");
        reveal_strlit("capabilities");
        assert("protocolVersion"@.len() == 15 && "clientInfo"@.len() == 10 && "capabilities"@.len() == 12);
        let k = crate::json::keys_of(m@);
        assert(k[0] == "protocolVersion"@ && k[1] == "clientInfo"@ && k[2] == "capabilities"@);
        assert(k.no_duplicates()) by {
            assert forall|a: int, b: int| 0 <= a < b < k.len() implies k[a] != k[b] by {
                assert(k[a].len() != k[b].len());
            }
        }
        crate::json::lemma_member_at(m@, "protocolVersion"@);
        crate::json::lemma_member_at(m@, "clientInfo"@);
        crate::json::lemma_member_at(m@, "capabilities"@);
        assert(m@[0].0@ == "protocolVersion"@);
        assert(m@[1].0@ == "clientInfo"@);
        assert(m@[2].0@ == "capabilities"@);
    }
    JsonValue::Object(m)
}

/// The client of one provider process. Ids are handed out in increasing
/// order from `next_id`; `pending` holds the ids that still await a reply and
/// `ready` the replies that arrived for them while another caller was reading.
pub struct RpcClient {
    pub state: ConnectionState,
    pub next_id: u64,
    pub pending: Vec<u64>,
    pub ready: Vec<(u64, Result<JsonValue, BridgeError>)>,
}

/// The ids of `ready`.
pub open spec fn ready_ids(ready: Seq<(u64, Result<JsonValue, BridgeError>)>) -> Seq<u64> {
    ready.map_values(|e: (u64, Result<JsonValue, BridgeError>)| e.0)
}

/// What happened while a caller waited for its reply.
pub enum WaitEvent {
    /// The process wrote a line.
    Line(String),
    /// The request's time bound passed.
    TimedOut,
    /// The process's output closed; its exit status, when known.
    Closed(Option<i32>),
}

/// Whether `line` is a reply to request `id` while that request awaits one.
pub open spec fn reply_here(line: Seq<char>, id: u64, pending: Seq<u64>) -> bool {
    &&& decoded_json(line) is Some
    &&& kind_of(decoded_json(line)->0) is Reply
    &&& reply_id(decoded_json(line)->0) == Some(id)
    &&& pending.contains(id)
}

/// A reply for another caller, stored by the routing of a line, survives
/// the waiting caller taking its own reply (entry `k`, or none when `k` is
/// past the end).
proof fn lemma_other_reply_kept(
    line: Seq<char>,
    id: u64,
    pending: Seq<u64>,
    routed: Routed,
    mid: Seq<(u64, Result<JsonValue, BridgeError>)>,
    after: Seq<(u64, Result<JsonValue, BridgeError>)>,
    k: int,
)
    requires
        mid.len() > 0 ==> (routed matches Routed::Stored { id: x } ==> mid.last().0 == x
            && outcome_matches(decoded_json(line)->0, mid.last().1)),
        routed is Stored ==> mid.len() > 0,
        forall|x: u64| #[trigger] reply_here(line, x, pending) ==> routed == (Routed::Stored { id: x }),
        k <= mid.len(),
        k == mid.len() ==> after == mid,
        k < mid.len() ==> 0 <= k && mid[k].0 == id && after == mid.remove(k),
    ensures
        forall|x: u64| x != id && #[trigger] reply_here(line, x, pending) ==> exists|j: int|
            0 <= j < after.len() && after[j].0 == x && outcome_matches(decoded_json(line)->0, after[j].1),
{
    assert forall|x: u64| x != id && #[trigger] reply_here(line, x, pending) implies exists|j: int|
        0 <= j < after.len() && after[j].0 == x && outcome_matches(decoded_json(line)->0, after[j].1) by {
        assert(routed == (Routed::Stored { id: x }));
        assert(mid.len() > 0);
        let last = mid.len() - 1;
        assert(mid.last() == mid[last]);
        assert(mid[last].0 == x);
        if k == mid.len() {
            assert(after[last] == mid[last]);
        } else {
            assert(mid[k].0 == id);
            assert(k != last);
            assert(k < last);
            assert(after.len() == mid.len() - 1);
            assert(after[last - 1] == mid.remove(k)[last - 1]);
            assert(after[last - 1] == mid[last]);
        }
    }
}

/// What the routing of one line did.
pub enum Routed {
    /// A reply for an awaited request; it now waits in `ready`.
    Stored { id: u64 },
    /// A reply for no awaited request: dropped.
    Stray { id: u64 },
    /// A line that needs nothing from the client.
    Skipped,
}

impl RpcClient {
    /// Ids in hand are unique, each below `next_id`, and each either still
    /// awaited or answered, not both.
    pub open spec fn wf(&self) -> bool {
        &&& self.pending@.no_duplicates()
        &&& ready_ids(self.ready@).no_duplicates()
        &&& forall|i: int| 0 <= i < self.pending@.len() ==> #[trigger] self.pending@[i] < self.next_id
        &&& forall|i: int| 0 <= i < self.ready@.len() ==> #[trigger] self.ready@[i].0 < self.next_id
        &&& forall|i: int, j: int|
            0 <= i < self.pending@.len() && 0 <= j < self.ready@.len() ==> #[trigger] self.pending@[i]
                != #[trigger] self.ready@[j].0
    }

    /// A client whose process is not started yet.
    pub fn new() -> (r: RpcClient)
        ensures
            r.wf(),
            r.state == ConnectionState::Unconnected,
            r.next_id == 0,
            r.pending@.len() == 0,
            r.ready@.len() == 0,
    {
        RpcClient { state: ConnectionState::Unconnected, next_id: 0, pending: Vec::new(), ready: Vec::new() }
    }

    /// Whether the provider can take requests: its handshake succeeded and
    /// it has not been disconnected.
    pub fn is_available(&self) -> (r: bool)
        ensures
            r == (self.state == ConnectionState::Connected),
    {
        self.state == ConnectionState::Connected
    }

    /// Starts connecting; refused (`false`) unless the client is new.
    pub fn begin_connect(&mut self) -> (r: bool)
        ensures
            r == (old(self).state == ConnectionState::Unconnected),
            final(self).state == (if r {
                ConnectionState::Connecting
            } else {
                old(self).state
            }),
            final(self).next_id == old(self).next_id,
            final(self).pending == old(self).pending,
            final(self).ready == old(self).ready,
    {
        if self.state == ConnectionState::Unconnected {
            self.state = ConnectionState::Connecting;
            true
        } else {
            false
        }
    }

    /// Reports the process's status right after it was spawned: one that has
    /// already exited ends the connection.
    pub fn on_spawned(&mut self, exit_status: Option<i32>) -> (r: Result<(), BridgeError>)
        requires
            old(self).state == ConnectionState::Connecting,
        ensures
            match exit_status {
                Some(s) => r == Err::<(), BridgeError>(BridgeError::ProcessExited(Some(s)))
                    && final(self).state == ConnectionState::Disconnected,
                None => r is Ok && final(self).state == ConnectionState::Connecting,
            },
            final(self).next_id == old(self).next_id,
            final(self).pending == old(self).pending,
            final(self).ready == old(self).ready,
    {
        match exit_status {
            Some(s) => {
                self.state = ConnectionState::Disconnected;
                Err(BridgeError::ProcessExited(Some(s)))
            },
            None => Ok(()),
        }
    }

    /// Reports how the `initialize` request ended: the handshake succeeds
    /// when it was answered without error.
    pub fn on_initialized(&mut self, answered: bool) -> (r: bool)
        requires
            old(self).state == ConnectionState::Connecting,
        ensures
            r == answered,
            final(self).state == (if answered {
                ConnectionState::Connected
            } else {
                ConnectionState::Disconnected
            }),
            final(self).next_id == old(self).next_id,
            final(self).pending == old(self).pending,
            final(self).ready == old(self).ready,
    {
        self.state = if answered {
            ConnectionState::Connected
        } else {
            ConnectionState::Disconnected
        };
        answered
    }

    /// Allocates the next id for a call of `method` and returns it with the
    /// line to write. Refused while no process is up.
    pub fn begin_request(&mut self, method: &str, params: JsonValue) -> (r: Result<(u64, String), BridgeError>)
        requires
            old(self).wf(),
            old(self).next_id < u64::MAX,
        ensures
            final(self).wf(),
            final(self).state == old(self).state,
            final(self).ready == old(self).ready,
            match r {
                Ok((id, line)) => {
                    &&& old(self).state is Connecting || old(self).state is Connected
                    &&& id == old(self).next_id
                    &&& final(self).next_id == old(self).next_id + 1
                    &&& final(self).pending@ == old(self).pending@.push(id)
                    &&& !old(self).pending@.contains(id)
                    &&& exists|doc: JsonValue| is_request_doc(doc, id, method@, params) && line@ == line_of(doc)
                },
                Err(e) => {
                    &&& !(old(self).state is Connecting || old(self).state is Connected)
                    &&& e is Transport
                    &&& final(self).next_id == old(self).next_id
                    &&& final(self).pending == old(self).pending
                },
            },
    {
        match self.state {
            ConnectionState::Connecting | ConnectionState::Connected => {},
            _ => {
                return Err(BridgeError::Transport(text_copy("not connected")));
            },
        }
        let id = self.next_id;
        let doc = request_document(id, method, params);
        let line = document_line(&doc);
        proof {
            assert(!self.pending@.contains(id)) by {
                if self.pending@.contains(id) {
                    let k = choose|k: int| 0 <= k < self.pending@.len() && self.pending@[k] == id;
                    assert(self.pending@[k] < self.next_id);
                }
            }
        }
        self.pending.push(id);
        self.next_id = id + 1;
        proof {
            assert(self.pending@.no_duplicates()) by {
                assert forall|i: int, j: int| 0 <= i < j < self.pending@.len() implies self.pending@[i] != self.pending@[j] by {
                    if j == self.pending@.len() - 1 {
                        assert(old(self).pending@[i] < id);
                    } else {
                        assert(old(self).pending@.no_duplicates());
                    }
                }
            }
            assert forall|i: int, j: int|
                0 <= i < self.pending@.len() && 0 <= j < self.ready@.len() implies #[trigger] self.pending@[i]
                    != #[trigger] self.ready@[j].0 by {
                if i == self.pending@.len() - 1 {
                    assert(self.ready@[j].0 < id);
                } else {
                    assert(old(self).pending@[i] != old(self).ready@[j].0);
                }
            }
        }
        Ok((id, line))
    }

    /// The line of a notification; no id is spent and no reply awaited.
    pub fn notification_line(&self, method: &str, params: JsonValue) -> (r: String)
        ensures
            exists|doc: JsonValue| is_notification_doc(doc, method@, params) && r@ == line_of(doc),
    {
        let doc = notification_document(method, params);
        document_line(&doc)
    }

    /// Routes one line read from the process: a reply to an awaited request
    /// is stored for its caller, whoever is reading; anything else is
    /// dropped and the reading goes on.
    pub fn route_line(&mut self, line: &str) -> (r: Routed)
        requires
            old(self).wf(),
        ensures
            final(self).wf(),
            final(self).state == old(self).state,
            final(self).next_id == old(self).next_id,
            match r {
                Routed::Stored { id } => {
                    &&& decoded_json(line@) is Some
                    &&& kind_of(decoded_json(line@)->0) is Reply
                    &&& reply_id(decoded_json(line@)->0) == Some(id)
                    &&& old(self).pending@.contains(id)
                    &&& final(self).pending@ == old(self).pending@.remove(old(self).pending@.index_of(id))
                    &&& final(self).ready@.len() == old(self).ready@.len() + 1
                    &&& final(self).ready@.drop_last() == old(self).ready@
                    &&& final(self).ready@.last().0 == id
                    &&& outcome_matches(decoded_json(line@)->0, final(self).ready@.last().1)
                },
                Routed::Stray { id } => {
                    &&& decoded_json(line@) is Some
                    &&& kind_of(decoded_json(line@)->0) is Reply
                    &&& reply_id(decoded_json(line@)->0) == Some(id)
                    &&& !old(self).pending@.contains(id)
                    &&& final(self).pending@ == old(self).pending@
                    &&& final(self).ready == old(self).ready
                },
                Routed::Skipped => {
                    &&& (decoded_json(line@) is None || !(kind_of(decoded_json(line@)->0) is Reply))
                    &&& final(self).pending == old(self).pending
                    &&& final(self).ready == old(self).ready
                },
            },
    {
        match classify_line(line) {
            Incoming::Reply { id, outcome } => {
                if !self.forget(id) {
                    return Routed::Stray { id };
                }
                proof {
                    assert(!ready_ids(self.ready@).contains(id)) by {
                        let k = old(self).pending@.index_of(id);
                        if ready_ids(self.ready@).contains(id) {
                            let j = choose|j: int| 0 <= j < self.ready@.len() && ready_ids(self.ready@)[j] == id;
                            assert(old(self).pending@[k] != old(self).ready@[j].0);
                        }
                    }
                    assert(id < self.next_id) by {
                        assert(old(self).pending@[old(self).pending@.index_of(id)] < self.next_id);
                    }
                }
                let ghost pend = self.pending@;
                self.ready.push((id, outcome));
                proof {
                    assert(self.ready@.drop_last() =~= old(self).ready@);
                    assert(ready_ids(self.ready@) =~= ready_ids(old(self).ready@).push(id));
                    assert(ready_ids(self.ready@).no_duplicates()) by {
                        let ids = ready_ids(self.ready@);
                        assert forall|a: int, b: int| 0 <= a < b < ids.len() implies ids[a] != ids[b] by {
                            if b == ids.len() - 1 {
                                assert(ids[a] == ready_ids(old(self).ready@)[a]);
                                assert(ready_ids(old(self).ready@).contains(ids[a]));
                            } else {
                                assert(ids[a] == ready_ids(old(self).ready@)[a]);
                                assert(ids[b] == ready_ids(old(self).ready@)[b]);
                            }
                        }
                    }
                    assert forall|i: int, j: int|
                        0 <= i < pend.len() && 0 <= j < self.ready@.len() implies #[trigger] pend[i]
                            != #[trigger] self.ready@[j].0 by {
                        if j == self.ready@.len() - 1 {
                            assert(pend.contains(pend[i]));
                        } else {
                            assert(self.ready@[j] == old(self).ready@[j]);
                        }
                    }
                }
                Routed::Stored { id }
            },
            _ => Routed::Skipped,
        }
    }

    /// Stops awaiting request `id`; whether it was awaited.
    fn forget(&mut self, id: u64) -> (found: bool)
        requires
            old(self).wf(),
        ensures
            final(self).wf(),
            found == old(self).pending@.contains(id),
            final(self).pending@ == (if found {
                old(self).pending@.remove(old(self).pending@.index_of(id))
            } else {
                old(self).pending@
            }),
            !final(self).pending@.contains(id),
            forall|x: u64| x != id ==> (final(self).pending@.contains(x) == old(self).pending@.contains(x)),
            final(self).state == old(self).state,
            final(self).next_id == old(self).next_id,
            final(self).ready == old(self).ready,
    {
        let mut k: usize = 0;
        while k < self.pending.len()
            invariant
                self.wf(),
                *self == *old(self),
                k <= self.pending@.len(),
                forall|j: int| 0 <= j < k ==> self.pending@[j] != id,
            decreases self.pending@.len() - k,
        {
            if self.pending[k] == id {
                let ghost before = self.pending@;
                proof {
                    assert(before[k as int] == id);
                    assert(before.contains(id));
                    assert(before.index_of(id) == k) by {
                        let j = before.index_of(id);
                        assert(before[j] == id);
                    }
                }
                self.pending.remove(k);
                proof {
                    let p = self.pending@;
                    assert(p == before.remove(k as int));
                    assert forall|i: int| 0 <= i < p.len() implies #[trigger] p[i] < self.next_id by {
                        if i < k {
                            assert(p[i] == before[i]);
                        } else {
                            assert(p[i] == before[i + 1]);
                        }
                    }
                    assert(p.no_duplicates()) by {
                        assert forall|a: int, b: int| 0 <= a < b < p.len() implies p[a] != p[b] by {
                            let a2 = if a < k { a } else { a + 1 };
                            let b2 = if b < k { b } else { b + 1 };
                            assert(p[a] == before[a2]);
                            assert(p[b] == before[b2]);
                        }
                    }
                    assert forall|i: int, j: int|
                        0 <= i < p.len() && 0 <= j < self.ready@.len() implies #[trigger] p[i]
                            != #[trigger] self.ready@[j].0 by {
                        let i2 = if i < k { i } else { i + 1 };
                        assert(p[i] == before[i2]);
                    }
                    assert(!p.contains(id)) by {
                        if p.contains(id) {
                            let i = choose|i: int| 0 <= i < p.len() && p[i] == id;
                            let i2 = if i < k { i } else { i + 1 };
                            assert(p[i] == before[i2]);
                        }
                    }
                    assert forall|x: u64| x != id implies (p.contains(x) == before.contains(x)) by {
                        if before.contains(x) {
                            let i = choose|i: int| 0 <= i < before.len() && before[i] == x;
                            if i < k {
                                assert(p[i] == x);
                            } else {
                                assert(i != k);
                                assert(p[i - 1] == x);
                            }
                        }
                        if p.contains(x) {
                            let i = choose|i: int| 0 <= i < p.len() && p[i] == x;
                            let i2 = if i < k { i } else { i + 1 };
                            assert(p[i] == before[i2]);
                        }
                    }
                }
                return true;
            }
            k = k + 1;
        }
        assert(!self.pending@.contains(id));
        false
    }

    /// Takes the stored reply to request `id`, if it has arrived.
    pub fn take_reply(&mut self, id: u64) -> (r: Option<Result<JsonValue, BridgeError>>)
        requires
            old(self).wf(),
        ensures
            final(self).wf(),
            final(self).state == old(self).state,
            final(self).next_id == old(self).next_id,
            final(self).pending == old(self).pending,
            match r {
                Some(out) => exists|k: int| 0 <= k < old(self).ready@.len() && old(self).ready@[k] == (id, out)
                    && final(self).ready@ == old(self).ready@.remove(k),
                None => !ready_ids(old(self).ready@).contains(id) && final(self).ready == old(self).ready,
            },
    {
        let mut k: usize = 0;
        while k < self.ready.len()
            invariant
                self.wf(),
                *self == *old(self),
                k <= self.ready@.len(),
                forall|j: int| 0 <= j < k ==> self.ready@[j].0 != id,
            decreases self.ready@.len() - k,
        {
            if self.ready[k].0 == id {
                let ghost before = self.ready@;
                let (rid, out) = self.ready.remove(k);
                proof {
                    let q = self.ready@;
                    assert(q == before.remove(k as int));
                    assert(before[k as int] == (rid, out));
                    assert forall|i: int| 0 <= i < q.len() implies #[trigger] q[i].0 < self.next_id by {
                        if i < k {
                            assert(q[i] == before[i]);
                        } else {
                            assert(q[i] == before[i + 1]);
                        }
                    }
                    assert(ready_ids(q).no_duplicates()) by {
                        let ids = ready_ids(q);
                        let old_ids = ready_ids(before);
                        assert forall|a: int, b: int| 0 <= a < b < ids.len() implies ids[a] != ids[b] by {
                            let a2 = if a < k { a } else { a + 1 };
                            let b2 = if b < k { b } else { b + 1 };
                            assert(ids[a] == old_ids[a2]);
                            assert(ids[b] == old_ids[b2]);
                        }
                    }
                    assert forall|i: int, j: int|
                        0 <= i < self.pending@.len() && 0 <= j < q.len() implies #[trigger] self.pending@[i]
                            != #[trigger] q[j].0 by {
                        let j2 = if j < k { j } else { j + 1 };
                        assert(q[j] == before[j2]);
                    }
                }
                return Some(out);
            }
            k = k + 1;
        }
        proof {
            let ids = ready_ids(self.ready@);
            assert forall|j: int| 0 <= j < ids.len() implies ids[j] != id by {
                assert(ids[j] == self.ready@[j].0);
            }
        }
        None
    }

    /// Gives up waiting for request `id` after its time bound: the request
    /// fails with a timeout and the process is left running.
    pub fn on_timeout(&mut self, id: u64) -> (r: BridgeError)
        requires
            old(self).wf(),
        ensures
            final(self).wf(),
            r is RpcTimeout,
            final(self).state == old(self).state,
            final(self).next_id == old(self).next_id,
            final(self).ready == old(self).ready,
            !final(self).pending@.contains(id),
            forall|x: u64| x != id ==> (final(self).pending@.contains(x) == old(self).pending@.contains(x)),
    {
        self.forget(id);
        BridgeError::RpcTimeout
    }

    /// Decides what one event means for the caller waiting on request `id`:
    /// `None` to keep waiting, or the request's outcome. A time bound that
    /// passes fails it with a timeout and leaves the process running; output
    /// that closes fails it with the process's exit and ends the client.
    pub fn on_wait_event(&mut self, id: u64, event: WaitEvent) -> (r: Option<Result<JsonValue, BridgeError>>)
        requires
            old(self).wf(),
        ensures
            final(self).wf(),
            final(self).next_id == old(self).next_id,
            match event {
                WaitEvent::TimedOut => r == Some(Err::<JsonValue, BridgeError>(BridgeError::RpcTimeout))
                    && final(self).state == old(self).state && !final(self).pending@.contains(id),
                WaitEvent::Closed(status) => r == Some(Err::<JsonValue, BridgeError>(BridgeError::ProcessExited(status)))
                    && final(self).state == ConnectionState::Disconnected && final(self).pending@.len() == 0,
                WaitEvent::Line(l) => {
                    &&& final(self).state == old(self).state
                    &&& (r is Some <==> (ready_ids(old(self).ready@).contains(id) || reply_here(l@, id, old(self).pending@)))
                    &&& (r is Some && ready_ids(old(self).ready@).contains(id) ==> exists|k: int|
                        0 <= k < old(self).ready@.len() && old(self).ready@[k] == (id, r->0))
                    &&& (r is Some && !ready_ids(old(self).ready@).contains(id) ==> outcome_matches(
                        decoded_json(l@)->0,
                        r->0,
                    ))
                    &&& (r is Some ==> !final(self).pending@.contains(id) && !ready_ids(final(self).ready@).contains(id))
                    &&& forall|x: u64| x != id && #[trigger] reply_here(l@, x, old(self).pending@) ==> exists|k: int|
                        0 <= k < final(self).ready@.len() && final(self).ready@[k].0 == x
                        && outcome_matches(decoded_json(l@)->0, final(self).ready@[k].1)
                },
            },
    {
        match event {
            WaitEvent::Line(line) => {
                let ghost old_ready = self.ready@;
                let ghost old_pending = self.pending@;
                let routed = self.route_line(line.as_str());
                let ghost mid = self.ready@;
                proof {
                    match routed {
                        Routed::Stored { id: id2 } => {
                            assert(mid.drop_last() == old_ready);
                            assert(mid[mid.len() - 1].0 == id2);
                            if ready_ids(old_ready).contains(id) {
                                let j = choose|j: int| 0 <= j < ready_ids(old_ready).len() && ready_ids(old_ready)[j] == id;
                                assert(mid[j] == old_ready[j]);
                                assert(ready_ids(mid)[j] == id);
                            } else if reply_here(line@, id, old_pending) {
                                assert(id2 == id);
                                assert(ready_ids(mid)[mid.len() - 1] == id);
                            } else {
                                assert(id2 != id);
                                assert forall|j: int| 0 <= j < ready_ids(mid).len() implies ready_ids(mid)[j] != id by {
                                    if j < mid.len() - 1 {
                                        assert(mid[j] == old_ready[j]);
                                        assert(ready_ids(old_ready)[j] == mid[j].0);
                                    }
                                }
                            }
                        },
                        _ => {
                            if ready_ids(old_ready).contains(id) {
                            } else {
                                assert(!reply_here(line@, id, old_pending));
                            }
                        },
                    }
                }
                match self.take_reply(id) {
                    Some(out) => {
                        proof {
                            let k = choose|k: int| 0 <= k < mid.len() && mid[k] == (id, out)
                                && self.ready@ == mid.remove(k);
                            let q = self.ready@;
                            assert(ready_ids(mid)[k] == id);
                            assert(!ready_ids(q).contains(id)) by {
                                if ready_ids(q).contains(id) {
                                    let j = choose|j: int| 0 <= j < ready_ids(q).len() && ready_ids(q)[j] == id;
                                    let j2 = if j < k { j } else { j + 1 };
                                    assert(q[j] == mid[j2]);
                                    assert(ready_ids(mid)[j2] == id);
                                }
                            }
                            assert(!self.pending@.contains(id)) by {
                                if self.pending@.contains(id) {
                                    let i = choose|i: int| 0 <= i < self.pending@.len() && self.pending@[i] == id;
                                    assert(self.pending@[i] != mid[k].0);
                                }
                            }
                            if ready_ids(old_ready).contains(id) {
                                let j = choose|j: int| 0 <= j < ready_ids(old_ready).len() && ready_ids(old_ready)[j] == id;
                                assert(mid[j] == old_ready[j]);
                                assert(ready_ids(mid)[j] == id);
                                assert(j == k);
                            } else {
                                match routed {
                                    Routed::Stored { id: id2 } => {
                                        if id2 != id {
                                            assert(mid[k] == old_ready[k] || k == mid.len() - 1);
                                            if k < mid.len() - 1 {
                                                assert(ready_ids(old_ready)[k] == id);
                                            }
                                        }
                                        assert(k == mid.len() - 1) by {
                                            if k < mid.len() - 1 {
                                                assert(mid[k] == old_ready[k]);
                                                assert(ready_ids(old_ready)[k] == id);
                                            }
                                        }
                                    },
                                    _ => {
                                        assert(mid[k] == old_ready[k]);
                                        assert(ready_ids(old_ready)[k] == id);
                                    },
                                }
                            }
                        }
                        proof {
                            let k = choose|k: int| 0 <= k < mid.len() && mid[k] == (id, out)
                                && self.ready@ == mid.remove(k);
                            lemma_other_reply_kept(line@, id, old_pending, routed, mid, self.ready@, k);
                        }
                        Some(out)
                    },
                    None => {
                        proof {
                            lemma_other_reply_kept(line@, id, old_pending, routed, mid, self.ready@, mid.len() as int);
                        }
                        None
                    },
                }
            },
            WaitEvent::TimedOut => Some(Err(self.on_timeout(id))),
            WaitEvent::Closed(status) => {
                self.on_exit(status);
                Some(Err(BridgeError::ProcessExited(status)))
            },
        }
    }

    /// Reports that the process ended: the client is done, and every awaited
    /// request fails with the exit, in the order they were sent.
    pub fn on_exit(&mut self, exit_status: Option<i32>) -> (r: Vec<(u64, BridgeError)>)
        requires
            old(self).wf(),
        ensures
            final(self).wf(),
            final(self).state == ConnectionState::Disconnected,
            final(self).next_id == old(self).next_id,
            final(self).pending@.len() == 0,
            final(self).ready == old(self).ready,
            r@.len() == old(self).pending@.len(),
            forall|i: int| 0 <= i < r@.len() ==> (#[trigger] r@[i]).0 == old(self).pending@[i]
                && r@[i].1 == BridgeError::ProcessExited(exit_status),
    {
        let mut failed: Vec<(u64, BridgeError)> = Vec::new();
        let mut k: usize = 0;
        while k < self.pending.len()
            invariant
                *self == *old(self),
                k <= self.pending@.len(),
                failed@.len() == k,
                forall|i: int| 0 <= i < k ==> (#[trigger] failed@[i]).0 == self.pending@[i]
                    && failed@[i].1 == BridgeError::ProcessExited(exit_status),
            decreases self.pending@.len() - k,
        {
            failed.push((self.pending[k], BridgeError::ProcessExited(exit_status)));
            k = k + 1;
        }
        self.pending = Vec::new();
        self.state = ConnectionState::Disconnected;
        failed
    }

    /// Ends the connection on the client's own account. Returns whether a
    /// running process is to be stopped; a second call stops nothing.
    pub fn disconnect(&mut self) -> (r: bool)
        requires
            old(self).wf(),
        ensures
            final(self).wf(),
            r == (old(self).state is Connecting || old(self).state is Connected),
            final(self).state == (if old(self).state is Unconnected {
                ConnectionState::Unconnected
            } else {
                ConnectionState::Disconnected
            }),
            final(self).next_id == old(self).next_id,
            final(self).pending == old(self).pending,
            final(self).ready == old(self).ready,
    {
        match self.state {
            ConnectionState::Connecting | ConnectionState::Connected => {
                self.state = ConnectionState::Disconnected;
                true
            },
            _ => false,
        }
    }
}

/// Ids are never handed out twice, and replies cannot be mixed up. The id
/// that the next request gets is held neither by a request that still
/// awaits its reply nor by a reply waiting to be taken. No two awaiting
/// requests, and no two stored replies, share an id, and no id is both
/// awaited and answered. Since each request takes `next_id` and raises it by
/// one, the ids of successive requests are distinct; since a stored reply is
/// handed only to the caller of its id, each caller gets its own reply.
pub proof fn lemma_fresh_ids(c: RpcClient)
    requires
        c.wf(),
    ensures
        !c.pending@.contains(c.next_id),
        !ready_ids(c.ready@).contains(c.next_id),
        forall|i: int, j: int| 0 <= i < j < c.pending@.len() ==> c.pending@[i] != c.pending@[j],
        forall|i: int, j: int| 0 <= i < j < c.ready@.len() ==> c.ready@[i].0 != c.ready@[j].0,
        forall|i: int, j: int| 0 <= i < c.pending@.len() && 0 <= j < c.ready@.len() ==> c.pending@[i] != c.ready@[j].0,
{
    assert forall|i: int, j: int| 0 <= i < j < c.ready@.len() implies c.ready@[i].0 != c.ready@[j].0 by {
        assert(ready_ids(c.ready@)[i] == c.ready@[i].0);
        assert(ready_ids(c.ready@)[j] == c.ready@[j].0);
    }
    if c.pending@.contains(c.next_id) {
        let k = choose|k: int| 0 <= k < c.pending@.len() && c.pending@[k] == c.next_id;
        assert(c.pending@[k] < c.next_id);
    }
    if ready_ids(c.ready@).contains(c.next_id) {
        let k = choose|k: int| 0 <= k < ready_ids(c.ready@).len() && ready_ids(c.ready@)[k] == c.next_id;
        assert(c.ready@[k].0 < c.next_id);
    }
}

} // verus!
