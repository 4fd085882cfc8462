//! What the three transports share and what tells them apart: the server
//! descriptors read from configuration, the endpoint derivations, the
//! session state, and the correlation core that every transport drives its
//! requests through.

use vstd::prelude::*;
use vstd::string::*;
use crate::errors::McpError;
use crate::frames::{
    classify_frame,
    data_prefix,
    session_prefix,
    spec_starts_with_u8,
    spec_trim,
    FrameEvent,
};
use crate::ids::RequestIdGenerator;
use crate::jsonrpc::{
    decode_response,
    encode_request,
    json_wellformed,
    response_outcome,
    spec_request_bytes,
    spec_wire_error,
    spec_wire_id,
    spec_wire_result,
};
use crate::pending::PendingTable;
use crate::text::{contains_str, replace_str, spec_contains_seq, spec_replace};

verus! {

/// How one configured server is reached: a spawned process spoken to over
/// its standard streams, a persistent event stream, or stateless streaming
/// HTTP.
pub enum McpServerConfig {
    /// A child process, with its command line and environment.
    Stdio { command: String, args: Vec<String>, env: Vec<(String, String)> },
    /// A long-lived event-stream connection to this address.
    Sse { url: String },
    /// One HTTP round trip per request, to this address.
    StreamableHttp { url: String },
}

/// The server list of a configuration file: name to descriptor, in file
/// order.
pub struct McpConfigFile {
    pub mcp_servers: Vec<(String, McpServerConfig)>,
}

/// The companion endpoint requests are posted to while the event stream
/// listens: the listen address with each `/sse` path segment replaced by
/// `/message`.
pub fn sse_post_url(url: &str) -> (r: String)
    ensures
        r@ == spec_replace(url@, "/sse"@, "/message"@),
{
    proof {
        reveal_strlit("/sse");
    }
    replace_str(url, "/sse", "/message")
}

/// Whether a response declares an event-stream body.
pub fn declares_event_stream(content_type: &str) -> (r: bool)
    ensures
        r == spec_contains_seq(content_type@, "text/event-stream"@),
{
    contains_str(content_type, "text/event-stream")
}

/// The session identifier a transport carries between calls: announced by
/// the server, attached to later requests when known.
pub struct SessionState {
    session_id: Option<Vec<u8>>,
}

impl SessionState {
    /// The identifier as far as one is known.
    pub closed spec fn current_id(&self) -> Option<Seq<u8>> {
        match self.session_id {
            Some(ref v) => Some(v@),
            None => None,
        }
    }

    /// No session known yet.
    pub fn new() -> (r: SessionState)
        ensures
            r.current_id() is None,
    {
        SessionState { session_id: None }
    }

    /// A session announcement replaces whatever was known.
    pub fn set(&mut self, sid: Vec<u8>)
        ensures
            final(self).current_id() == Some(sid@),
    {
        self.session_id = Some(sid);
    }

    /// Takes note of a response's session header: present replaces, absent
    /// leaves the current identifier for reuse on subsequent calls.
    pub fn observe_header(&mut self, sid: Option<Vec<u8>>)
        ensures
            match sid {
                Some(v) => final(self).current_id() == Some(v@),
                None => final(self).current_id() == old(self).current_id(),
            },
    {
        match sid {
            Some(v) => self.session_id = Some(v),
            None => {},
        }
    }

    /// The identifier to attach to an outbound request, when one is known.
    pub fn current(&self) -> (r: Option<&Vec<u8>>)
        ensures
            match r {
                Some(v) => self.current_id() == Some(v@),
                None => self.current_id() is None,
            },
    {
        match &self.session_id {
            Some(v) => Some(v),
            None => None,
        }
    }
}

/// A payload resolved a pending request: the document's id names an entry
/// of the old table, the handed-back waiter is exactly that entry, and
/// only that entry left the table.
pub open spec fn spec_payload_match<W>(
    pre: Map<u64, W>,
    post: Map<u64, W>,
    payload: Seq<u8>,
    w: W,
) -> bool {
    &&& json_wellformed(payload)
    &&& spec_wire_id(payload) matches Some(id) && pre.contains_key(id) && w == pre[id] && post
        == pre.remove(id)
}

/// The outcome handed to a woken waiter, read off the payload bytes: the
/// document's error as a protocol error with exactly its code and
/// message, else its result payload, possibly absent.
pub open spec fn spec_payload_outcome(
    payload: Seq<u8>,
    outcome: Result<Option<Vec<u8>>, McpError>,
) -> bool {
    match spec_wire_error(payload) {
        Some(e) => outcome matches Err(err) && (err matches McpError::Protocol { code, message }
            && code == e.0 && message@ == e.1),
        None => outcome matches Ok(opt) && (match spec_wire_result(payload) {
            Some(b) => opt matches Some(v) && v@ == b,
            None => opt is None,
        }),
    }
}

/// Whether a payload obliges the transport to wake someone: it is JSON,
/// it echoes an id, and that id is pending.
pub open spec fn spec_payload_resolvable<W>(pre: Map<u64, W>, payload: Seq<u8>) -> bool {
    json_wellformed(payload) && (spec_wire_id(payload) matches Some(id) && pre.contains_key(id))
}

/// The correlation core every transport drives: the table of in-flight
/// requests, with a watermark above every pending id, so that a fresh id
/// drawn from the process's generator can never collide.
pub struct TransportCore<W> {
    watermark: u64,
    pending: PendingTable<W>,
}

impl<W> TransportCore<W> {
    /// The requests in flight.
    pub closed spec fn pending(&self) -> Map<u64, W> {
        self.pending.pending()
    }

    /// Every pending id lies below this bound.
    pub closed spec fn watermark(&self) -> u64 {
        self.watermark
    }

    /// Ids in flight are below the watermark, which never passes the
    /// generator: a fresh id cannot collide with a pending request.
    pub closed spec fn well_formed(&self) -> bool {
        &&& self.pending.well_formed()
        &&& forall|k: u64| self.pending.pending().contains_key(k) ==> k < self.watermark
    }

    /// A fresh core with no requests in flight.
    pub fn new() -> (r: TransportCore<W>)
        ensures
            r.well_formed(),
            r.pending() == Map::<u64, W>::empty(),
            r.watermark() == 0,
    {
        TransportCore { watermark: 0, pending: PendingTable::new() }
    }

    /// The watermark, for callers that must test the generator against it
    /// before drawing an id.
    pub fn watermark_value(&self) -> (n: u64)
        ensures
            n == self.watermark(),
    {
        self.watermark
    }

    /// How many requests are in flight.
    pub fn in_flight(&self) -> (n: usize)
        requires
            self.well_formed(),
        ensures
            n == self.pending().dom().len(),
    {
        self.pending.len()
    }

    /// Builds one outbound request: draws the next id from the process's
    /// generator, registers the waiter under it, and returns the id with
    /// the exact envelope bytes to put on the wire.
    pub fn prepare_request(
        &mut self,
        ids: &mut RequestIdGenerator,
        w: W,
        method: &str,
        params_json: Option<&Vec<u8>>,
    ) -> (r: (u64, Vec<u8>))
        requires
            old(self).well_formed(),
            old(ids).current() < u64::MAX,
            old(ids).current() >= old(self).watermark(),
        ensures
            final(self).well_formed(),
            r.0 == old(ids).current(),
            final(ids).current() == r.0 + 1,
            final(self).watermark() == r.0 + 1,
            !old(self).pending().contains_key(r.0),
            final(self).pending() == old(self).pending().insert(r.0, w),
            r.1@ == spec_request_bytes(
                Some(r.0),
                method@,
                match params_json {
                    Some(p) => Some(p@),
                    None => None,
                },
            ),
    {
        let id = ids.next_request_id();
        proof {
            assert(!self.pending.pending().contains_key(id));
        }
        self.pending.register(id, w);
        self.watermark = id + 1;
        let bytes = encode_request(Some(id), method, params_json);
        (id, bytes)
    }

    /// Builds one notification: fire and forget, no id, no waiter, and the
    /// table of in-flight requests untouched.
    pub fn prepare_notification(&self, method: &str) -> (r: Vec<u8>)
        ensures
            r@ == spec_request_bytes(None, method@, None),
    {
        encode_request(None, method, None)
    }

    /// Wakes the waiter of an id, if it is still pending: the response
    /// path and the timeout path both come through here, so whichever
    /// comes second finds the slot gone.
    pub fn take_waiter(&mut self, id: u64) -> (r: Option<W>)
        requires
            old(self).well_formed(),
        ensures
            final(self).well_formed(),
            final(self).watermark() == old(self).watermark(),
            match r {
                Some(_) => old(self).pending().contains_key(id) && r == Some(
                    old(self).pending()[id],
                ) && final(self).pending() == old(self).pending().remove(id),
                None => !old(self).pending().contains_key(id) && final(self).pending() == old(self).pending(),
            },
    {
        self.pending.resolve(id)
    }

    /// Empties the table on transport closure, handing back every waiter
    /// so each can be woken once with a closure error.
    pub fn close_all(&mut self) -> (ws: Vec<(u64, W)>)
        requires
            old(self).well_formed(),
        ensures
            final(self).well_formed(),
            final(self).watermark() == old(self).watermark(),
            final(self).pending() == Map::<u64, W>::empty(),
            crate::pending::map_of(ws@) == old(self).pending(),
    {
        self.pending.drain()
    }

    /// Handles one received line or data-frame payload. A valid response
    /// document whose id is pending wakes exactly that waiter — the slot
    /// leaves the table — with the outcome the document's bytes dictate:
    /// its error as a protocol error, else its result payload. Malformed
    /// bytes, documents without a pending id and ids nobody waits for are
    /// skipped without disturbing the table, and nothing else is skipped.
    pub fn handle_payload(&mut self, payload: &[u8]) -> (r: Option<
        (W, Result<Option<Vec<u8>>, McpError>),
    >)
        requires
            old(self).well_formed(),
        ensures
            final(self).well_formed(),
            final(self).watermark() == old(self).watermark(),
            match r {
                Some(pair) => spec_payload_match(
                    old(self).pending(),
                    final(self).pending(),
                    payload@,
                    pair.0,
                ) && spec_payload_outcome(payload@, pair.1),
                None => final(self).pending() == old(self).pending()
                    && !spec_payload_resolvable(old(self).pending(), payload@),
            },
    {
        let envelope = match decode_response(payload) {
            Some(e) => e,
            None => {
                return None;
            },
        };
        let id = match envelope.id {
            Some(id) => id,
            None => {
                return None;
            },
        };
        let w = match self.take_waiter(id) {
            Some(w) => w,
            None => {
                return None;
            },
        };
        Some((w, response_outcome(envelope)))
    }

    /// Handles one complete frame of the event stream. A data frame's
    /// payload goes through [`TransportCore::handle_payload`] and obliges
    /// the same resolution; a session announcement is handed back with
    /// the trimmed identifier; anything else — the empty frame included —
    /// is ignored, and nothing that obliges an action is.
    pub fn handle_frame(&mut self, frame: &[u8]) -> (r: FrameOutcome<W>)
        requires
            old(self).well_formed(),
        ensures
            final(self).well_formed(),
            final(self).watermark() == old(self).watermark(),
            match r {
                FrameOutcome::Resolved(w, outcome) => spec_starts_with_u8(frame@, data_prefix())
                    && spec_payload_match(
                    old(self).pending(),
                    final(self).pending(),
                    frame@.skip(6),
                    w,
                ) && spec_payload_outcome(frame@.skip(6), outcome),
                FrameOutcome::NewSession(sid) => !spec_starts_with_u8(frame@, data_prefix())
                    && spec_starts_with_u8(frame@, session_prefix()) && sid@ == spec_trim(
                    frame@.skip(21),
                ) && final(self).pending() == old(self).pending(),
                FrameOutcome::Nothing => final(self).pending() == old(self).pending() && (
                spec_starts_with_u8(frame@, data_prefix()) ==> !spec_payload_resolvable(
                    old(self).pending(),
                    frame@.skip(6),
                )) && (!spec_starts_with_u8(frame@, data_prefix())
                    ==> !spec_starts_with_u8(frame@, session_prefix())),
            },
    {
        match classify_frame(frame) {
            FrameEvent::Data(payload) => match self.handle_payload(payload.as_slice()) {
                Some((w, outcome)) => FrameOutcome::Resolved(w, outcome),
                None => FrameOutcome::Nothing,
            },
            FrameEvent::Session(sid) => FrameOutcome::NewSession(sid),
            FrameEvent::Ignored => FrameOutcome::Nothing,
        }
    }
}

/// What one event-stream frame led to.
pub enum FrameOutcome<W> {
    /// A pending request was answered: its waiter and the outcome to hand
    /// it.
    Resolved(W, Result<Option<Vec<u8>>, McpError>),
    /// The server announced a session identifier.
    NewSession(Vec<u8>),
    /// The frame carried nothing for this transport.
    Nothing,
}

} // verus!
