//! The JSON-RPC wire envelopes: requests and notifications are encoded
//! here byte for byte, with a verified string escape; responses arrive as
//! arbitrary JSON and are read through `serde_json`, the one outside crate
//! this layer trusts.

use vstd::prelude::*;
use vstd::string::*;
use vstd::utf8::encode_utf8;
use crate::errors::McpError;

verus! {

/// The protocol version advertised during the handshake.
pub const LATEST_PROTOCOL_VERSION: &'static str = "2024-11-05";

/// A lowercase hexadecimal digit as a byte.
pub open spec fn spec_hex_byte(d: int) -> u8 {
    if d < 10 {
        (48 + d) as u8
    } else {
        (87 + d) as u8
    }
}

/// How one byte of a string appears inside a JSON string literal: quote,
/// backslash and the common control characters get their two-byte escapes,
/// any other control character a `\u00..` escape, and everything else —
/// multi-byte UTF-8 included — passes through unchanged.
pub open spec fn spec_escape_byte(b: u8) -> Seq<u8> {
    if b == 34 {
        seq![92u8, 34u8]  // \"
    } else if b == 92 {
        seq![92u8, 92u8]  // backslash, doubled
    } else if b == 10 {
        seq![92u8, 110u8]  // \n
    } else if b == 13 {
        seq![92u8, 114u8]  // \r
    } else if b == 9 {
        seq![92u8, 116u8]  // \t
    } else if b < 32 {
        seq![92u8, 117u8, 48u8, 48u8, spec_hex_byte(b as int / 16), spec_hex_byte(b as int % 16)]
    } else {
        seq![b]
    }
}

/// A byte sequence escaped for use inside a JSON string literal.
pub open spec fn spec_escape(s: Seq<u8>) -> Seq<u8>
    decreases s.len(),
{
    if s.len() == 0 {
        Seq::empty()
    } else {
        spec_escape(s.drop_last()) + spec_escape_byte(s.last())
    }
}

/// Escapes text bytes for a JSON string literal.
pub fn escape_json_bytes(v: &[u8]) -> (r: Vec<u8>)
    ensures
        r@ == spec_escape(v@),
{
    let mut out: Vec<u8> = Vec::new();
    let mut i: usize = 0;
    proof {
        assert(v@.subrange(0, 0) =~= Seq::<u8>::empty());
        assert(out@ =~= spec_escape(v@.subrange(0, 0)));
    }
    while i < v.len()
        invariant
            i <= v@.len(),
            out@ == spec_escape(v@.subrange(0, i as int)),
        decreases v@.len() - i,
    {
        proof {
            assert(v@.subrange(0, i + 1).drop_last() =~= v@.subrange(0, i as int));
            assert(v@.subrange(0, i + 1).last() == v@[i as int]);
        }
        let b = v[i];
        if b == 34 {
            out.push(92);
            out.push(34);
        } else if b == 92 {
            out.push(92);
            out.push(92);
        } else if b == 10 {
            out.push(92);
            out.push(110);
        } else if b == 13 {
            out.push(92);
            out.push(114);
        } else if b == 9 {
            out.push(92);
            out.push(116);
        } else if b < 32 {
            out.push(92);
            out.push(117);
            out.push(48);
            out.push(48);
            let hi = b / 16;
            let lo = b % 16;
            out.push(if hi < 10 { 48 + hi } else { 87 + hi });
            out.push(if lo < 10 { 48 + lo } else { 87 + lo });
        } else {
            out.push(b);
        }
        proof {
            assert(out@ =~= spec_escape(v@.subrange(0, i + 1)));
        }
        i += 1;
    }
    proof {
        assert(v@.subrange(0, v@.len() as int) =~= v@);
    }
    out
}

/// The decimal digits of a non-negative integer, as bytes.
pub open spec fn spec_u64_bytes(n: int) -> Seq<u8>
    decreases n,
{
    if n < 10 {
        seq![(48 + n) as u8]
    } else {
        spec_u64_bytes(n / 10).push((48 + n % 10) as u8)
    }
}

/// Renders an unsigned integer in decimal, as bytes.
pub fn u64_to_bytes(n: u64) -> (r: Vec<u8>)
    ensures
        r@ == spec_u64_bytes(n as int),
    decreases n,
{
    if n < 10 {
        let mut out: Vec<u8> = Vec::new();
        out.push(48 + (n as u8));
        proof {
            assert(out@ =~= spec_u64_bytes(n as int));
        }
        out
    } else {
        let mut out = u64_to_bytes(n / 10);
        out.push(48 + ((n % 10) as u8));
        proof {
            assert(out@ =~= spec_u64_bytes(n as int));
        }
        out
    }
}

/// The exact bytes of one request envelope: protocol tag, the id when the
/// message expects a response — a notification carries none — the escaped
/// method name, and the raw parameter JSON when there is one.
pub open spec fn spec_request_bytes(
    id: Option<u64>,
    method: Seq<char>,
    params: Option<Seq<u8>>,
) -> Seq<u8> {
    encode_utf8("{\"jsonrpc\":\"2.0\""@) + (match id {
        Some(n) => encode_utf8(",\"id\":"@) + spec_u64_bytes(n as int),
        None => Seq::<u8>::empty(),
    }) + encode_utf8(",\"method\":\""@) + spec_escape(encode_utf8(method)) + encode_utf8("\""@)
        + (match params {
        Some(p) => encode_utf8(",\"params\":"@) + p,
        None => Seq::<u8>::empty(),
    }) + encode_utf8("}"@)
}

/// Encodes one JSON-RPC envelope: with an id for a request, without one
/// for a notification; `params_json` is embedded verbatim.
pub fn encode_request(id: Option<u64>, method: &str, params_json: Option<&Vec<u8>>) -> (r: Vec<
    u8,
>)
    ensures
        r@ == spec_request_bytes(
            id,
            method@,
            match params_json {
                Some(p) => Some(p@),
                None => None,
            },
        ),
{
    let mut out: Vec<u8> = "{\"jsonrpc\":\"2.0\"".as_bytes_vec();
    match id {
        Some(n) => {
            let mut tag = ",\"id\":".as_bytes_vec();
            out.append(&mut tag);
            let mut digits = u64_to_bytes(n);
            out.append(&mut digits);
        },
        None => {},
    }
    let mut mtag = ",\"method\":\"".as_bytes_vec();
    out.append(&mut mtag);
    let mbytes = method.as_bytes_vec();
    let mut escaped = escape_json_bytes(mbytes.as_slice());
    out.append(&mut escaped);
    let mut q = "\"".as_bytes_vec();
    out.append(&mut q);
    match params_json {
        Some(p) => {
            let mut ptag = ",\"params\":".as_bytes_vec();
            out.append(&mut ptag);
            let mut pcopy = crate::frames::copy_range(p.as_slice(), 0, p.len());
            out.append(&mut pcopy);
        },
        None => {},
    }
    let mut close = "}".as_bytes_vec();
    out.append(&mut close);
    proof {
        assert(out@ =~= spec_request_bytes(
            id,
            method@,
            match params_json {
                Some(p) => Some(p@),
                None => None,
            },
        ));
    }
    out
}

/// A server-reported JSON-RPC error: its code and message.
pub struct RpcError {
    pub code: i64,
    pub message: String,
}

/// One decoded response envelope: the echoed id — absent on server-sent
/// messages that answer nothing — and either an error or the result
/// payload, rendered back to JSON bytes.
pub struct ResponseEnvelope {
    pub id: Option<u64>,
    pub error: Option<RpcError>,
    pub result: Option<Vec<u8>>,
}

/// Whether a byte sequence is well-formed JSON, in the sense that
/// `serde_json` parses it; success is a function of the bytes alone.
pub uninterp spec fn json_wellformed(bytes: Seq<u8>) -> bool;

/// The `id` field of a response document: the value of its top-level
/// `id` member when the document is JSON and that member is an unsigned
/// integer, and nothing otherwise. A function of the bytes alone.
pub uninterp spec fn spec_wire_id(bytes: Seq<u8>) -> Option<u64>;

/// The error of a response document: the `code` (a missing or non-integer
/// code reads as 0) and `message` (a missing or non-string message reads
/// as empty) of its top-level `error` member, when the document is JSON
/// and has one; nothing otherwise. A function of the bytes alone.
pub uninterp spec fn spec_wire_error(bytes: Seq<u8>) -> Option<(i64, Seq<char>)>;

/// The result payload of a response document, rendered back to JSON
/// bytes, when the document is JSON and has a top-level `result` member;
/// nothing otherwise. The rendering is a function of the bytes alone: the
/// parsed maps are ordered, so one value has one rendering.
pub uninterp spec fn spec_wire_result(bytes: Seq<u8>) -> Option<Seq<u8>>;

/// Relies on serde_json::from_slice: whether the bytes parse as JSON;
/// success depends on the bytes alone.
#[verifier::external_body]
pub(crate) fn check_json(bytes: &[u8]) -> (r: bool)
    ensures
        r == json_wellformed(bytes@),
{
    serde_json::from_slice::<serde_json::Value>(bytes).is_ok()
}

/// Relies on serde_json::from_slice, Value::get, Value::as_u64,
/// Value::as_i64, Value::as_str and serde_json::to_vec: reads the id,
/// error and result fields of a response document. Every field is a
/// function of the bytes alone, which the three names state.
#[verifier::external_body]
fn read_envelope(bytes: &[u8]) -> (r: Option<
    (Option<u64>, Option<(i64, String)>, Option<Vec<u8>>),
>)
    ensures
        r.is_some() == json_wellformed(bytes@),
        match r {
            Some(f) => {
                &&& f.0 == spec_wire_id(bytes@)
                &&& match f.1 {
                    Some(e) => spec_wire_error(bytes@) == Some((e.0, e.1@)),
                    None => spec_wire_error(bytes@) is None,
                }
                &&& match f.2 {
                    Some(b) => spec_wire_result(bytes@) == Some(b@),
                    None => spec_wire_result(bytes@) is None,
                }
            },
            None => true,
        },
{
    let v: serde_json::Value = match serde_json::from_slice(bytes) {
        Ok(v) => v,
        Err(_) => return None,
    };
    let id = v.get("id").and_then(serde_json::Value::as_u64);
    let error = v.get("error").map(|e| (
        e.get("code").and_then(serde_json::Value::as_i64).unwrap_or(0),
        e.get("message").and_then(serde_json::Value::as_str).unwrap_or("").to_string(),
    ));
    let result = v.get("result").and_then(|res| serde_json::to_vec(res).ok());
    Some((id, error, result))
}

/// Decodes one response envelope from a received line or frame payload:
/// exactly the id, error and result the document's bytes carry, per the
/// three wire names; a document that is no JSON at all is reported as
/// none, and the caller skips it.
pub fn decode_response(bytes: &[u8]) -> (r: Option<ResponseEnvelope>)
    ensures
        r.is_some() == json_wellformed(bytes@),
        match r {
            Some(env) => {
                &&& env.id == spec_wire_id(bytes@)
                &&& match env.error {
                    Some(e) => spec_wire_error(bytes@) == Some((e.code, e.message@)),
                    None => spec_wire_error(bytes@) is None,
                }
                &&& match env.result {
                    Some(b) => spec_wire_result(bytes@) == Some(b@),
                    None => spec_wire_result(bytes@) is None,
                }
            },
            None => true,
        },
{
    let fields = match read_envelope(bytes) {
        Some(f) => f,
        None => {
            return None;
        },
    };
    let (id, error, result) = fields;
    let error = match error {
        Some(e) => Some(RpcError { code: e.0, message: e.1 }),
        None => None,
    };
    Some(ResponseEnvelope { id, error, result })
}

/// Turns a decoded envelope into the caller's outcome: a server-reported
/// error becomes a protocol error carrying exactly its code and message;
/// otherwise the result payload — possibly absent — is handed through.
pub fn response_outcome(env: ResponseEnvelope) -> (r: Result<Option<Vec<u8>>, McpError>)
    ensures
        match env.error {
            Some(e) => r matches Err(err) && (err matches McpError::Protocol { code, message }
                && code == e.code && message@ == e.message@),
            None => r matches Ok(v) && v == env.result,
        },
{
    match env.error {
        Some(e) => Err(McpError::Protocol { code: e.code, message: e.message }),
        None => Ok(env.result),
    }
}

} // verus!
