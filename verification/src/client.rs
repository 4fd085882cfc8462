//! The session client: one per configured server. It owns the one-time
//! handshake guard and the cached tool catalog, builds the parameter
//! payloads of the protocol's calls, and decodes what the server returned.

use vstd::prelude::*;
use vstd::string::*;
use vstd::utf8::encode_utf8;
use crate::jsonrpc::{check_json, json_wellformed, spec_escape};
use crate::jsonrpc::escape_json_bytes;
use crate::tools::{McpContent, McpTool, McpToolInputSchema, McpToolResult};

verus! {

/// The method name of the handshake request.
pub const METHOD_INITIALIZE: &'static str = "initialize";

/// The method name of the notification that follows a handshake.
pub const METHOD_INITIALIZED: &'static str = "notifications/initialized";

/// The method name of tool discovery.
pub const METHOD_TOOLS_LIST: &'static str = "tools/list";

/// The method name of tool invocation.
pub const METHOD_TOOLS_CALL: &'static str = "tools/call";

/// The fixed parameter payload of the handshake: protocol version,
/// capability advertisement and client identity.
pub fn initialize_params() -> (r: Vec<u8>)
    ensures
        r@ == encode_utf8(
            "{\"protocolVersion\":\"2024-11-05\",\"capabilities\":{\"roots\":{\"listChanged\":true},\"sampling\":{}},\"clientInfo\":{\"name\":\"xiaoshi\",\"version\":\"1.0.0\"}}"@,
        ),
{
    "{\"protocolVersion\":\"2024-11-05\",\"capabilities\":{\"roots\":{\"listChanged\":true},\"sampling\":{}},\"clientInfo\":{\"name\":\"xiaoshi\",\"version\":\"1.0.0\"}}".as_bytes_vec()
}

/// The parameter payload of one tool invocation: the escaped tool name and
/// the argument text embedded verbatim — unless that text is not
/// well-formed JSON, in which case it degrades to `null` rather than
/// failing the call.
pub open spec fn spec_call_params(name: Seq<char>, arguments: Seq<u8>) -> Seq<u8> {
    encode_utf8("{\"name\":\""@) + spec_escape(encode_utf8(name)) + encode_utf8(
        "\",\"arguments\":"@,
    ) + (if json_wellformed(arguments) {
        arguments
    } else {
        encode_utf8("null"@)
    }) + encode_utf8("}"@)
}

/// Builds the `tools/call` parameters for a tool name and raw argument
/// text.
pub fn call_tool_params(name: &str, arguments: &str) -> (r: Vec<u8>)
    ensures
        r@ == spec_call_params(name@, arguments.spec_bytes()),
{
    let mut out: Vec<u8> = "{\"name\":\"".as_bytes_vec();
    let nbytes = name.as_bytes_vec();
    let mut escaped = escape_json_bytes(nbytes.as_slice());
    out.append(&mut escaped);
    let mut mid = "\",\"arguments\":".as_bytes_vec();
    out.append(&mut mid);
    let abytes = arguments.as_bytes_vec();
    if check_json(abytes.as_slice()) {
        let mut acopy = crate::frames::copy_range(abytes.as_slice(), 0, abytes.len());
        out.append(&mut acopy);
    } else {
        let mut null_text = "null".as_bytes_vec();
        out.append(&mut null_text);
    }
    let mut close = "}".as_bytes_vec();
    out.append(&mut close);
    proof {
        assert(out@ =~= spec_call_params(name@, arguments.spec_bytes()));
    }
    out
}

/// The per-server client state: its configured name, the cached catalog of
/// its tools, and whether the handshake has been done.
pub struct McpClient {
    name: String,
    tools: Vec<McpTool>,
    initialized: bool,
}

impl McpClient {
    /// The server's configured name.
    pub closed spec fn server_name(&self) -> Seq<char> {
        self.name@
    }

    /// The cached tool catalog of this server.
    pub closed spec fn cached_tools(&self) -> Seq<McpTool> {
        self.tools@
    }

    /// Whether the handshake has completed.
    pub closed spec fn is_initialized(&self) -> bool {
        self.initialized
    }

    /// A client for a named server: handshake not yet done, no tools
    /// cached.
    pub fn new(name: String) -> (r: McpClient)
        ensures
            r.server_name() == name@,
            r.cached_tools() == Seq::<McpTool>::empty(),
            !r.is_initialized(),
    {
        McpClient { name, tools: Vec::new(), initialized: false }
    }

    /// The server's name, for routing and reporting.
    pub fn name(&self) -> (r: &str)
        ensures
            r@ == self.server_name(),
    {
        self.name.as_str()
    }

    /// Whether the handshake still has to run: repeated initialization is
    /// a no-op, guarded here.
    pub fn needs_initialize(&self) -> (r: bool)
        ensures
            r == !self.is_initialized(),
    {
        !self.initialized
    }

    /// Records that the handshake completed; from now on initialization
    /// is a no-op.
    pub fn mark_initialized(&mut self)
        ensures
            final(self).is_initialized(),
            final(self).server_name() == old(self).server_name(),
            final(self).cached_tools() == old(self).cached_tools(),
    {
        self.initialized = true;
    }

    /// Replaces the cached catalog atomically with a freshly discovered
    /// list: a reader sees the old list or the new one, never a mixture.
    pub fn set_tools(&mut self, tools: Vec<McpTool>)
        ensures
            final(self).cached_tools() == tools@,
            final(self).server_name() == old(self).server_name(),
            final(self).is_initialized() == old(self).is_initialized(),
    {
        self.tools = tools;
    }

    /// The cached catalog.
    pub fn tools(&self) -> (r: &Vec<McpTool>)
        ensures
            r@ == self.cached_tools(),
    {
        &self.tools
    }
}

/// How many entries the `tools` array of a discovery result document
/// has; zero when the document is not JSON or has no such array. A
/// function of the bytes alone.
pub uninterp spec fn spec_wire_tools_len(bytes: Seq<u8>) -> int;

/// The name and description of entry `i` of a discovery document's
/// `tools` array: an absent or non-string field reads as empty, an entry
/// beyond the array as all-empty. A function of the bytes alone.
pub uninterp spec fn spec_wire_tool_names(bytes: Seq<u8>, i: int) -> (String, String);

/// The schema type and property-map text of entry `i` of the `tools`
/// array: an absent or non-string type reads as empty, an absent
/// property map as `{}`. A function of the bytes alone.
pub uninterp spec fn spec_wire_tool_schema(bytes: Seq<u8>, i: int) -> (String, String);

/// The required-field names of entry `i` of the `tools` array; empty
/// when there are none. A function of the bytes alone.
pub uninterp spec fn spec_wire_tool_required(bytes: Seq<u8>, i: int) -> Seq<String>;

/// Relies on serde_json::from_slice, Value::get and Value::as_array: how
/// many entries the `tools` array has.
#[verifier::external_body]
fn wire_tools_len(bytes: &[u8]) -> (r: usize)
    ensures
        r as int == spec_wire_tools_len(bytes@),
{
    serde_json::from_slice::<serde_json::Value>(bytes)
        .ok()
        .and_then(|v| v.get("tools").and_then(|t| t.as_array()).map(|a| a.len()))
        .unwrap_or(0)
}

/// Relies on serde_json::from_slice, Value::get, Value::as_str and
/// Value::as_array: the name and description of one `tools` entry, as
/// the name's account says.
#[verifier::external_body]
fn read_tool_names(bytes: &[u8], i: usize) -> (r: (String, String))
    ensures
        r == spec_wire_tool_names(bytes@, i as int),
{
    let o = serde_json::from_slice::<serde_json::Value>(bytes).ok();
    let t = o.as_ref().and_then(|v| v.get("tools")).and_then(|x| x.as_array()).and_then(|a| a.get(i));
    let f = |x: Option<&serde_json::Value>| x.and_then(|y| y.as_str()).unwrap_or("").to_string();
    (f(t.and_then(|x| x.get("name"))), f(t.and_then(|x| x.get("description"))))
}

/// Relies on serde_json::from_slice, Value::get, Value::as_str,
/// Value::as_array and serde_json::to_string: the schema type and
/// property-map text of one `tools` entry, as the name's account says.
#[verifier::external_body]
fn read_tool_schema(bytes: &[u8], i: usize) -> (r: (String, String))
    ensures
        r == spec_wire_tool_schema(bytes@, i as int),
{
    let o = serde_json::from_slice::<serde_json::Value>(bytes).ok();
    let t = o.as_ref().and_then(|v| v.get("tools")).and_then(|x| x.as_array()).and_then(|a| a.get(i));
    let s = t.and_then(|x| x.get("inputSchema"));
    (
        s.and_then(|x| x.get("type")).and_then(|y| y.as_str()).unwrap_or("").to_string(),
        s.and_then(|x| x.get("properties")).and_then(|p| serde_json::to_string(p).ok()).unwrap_or_else(|| "{}".to_string()),
    )
}

/// Relies on serde_json::from_slice, Value::get, Value::as_str and
/// Value::as_array: the required-field names of one `tools` entry.
#[verifier::external_body]
fn read_tool_required(bytes: &[u8], i: usize) -> (r: Vec<String>)
    ensures
        r@ == spec_wire_tool_required(bytes@, i as int),
{
    let o = serde_json::from_slice::<serde_json::Value>(bytes).ok();
    let q = o.as_ref().and_then(|v| v.get("tools")).and_then(|x| x.as_array()).and_then(|a| a.get(i))
        .and_then(|t| t.get("inputSchema")).and_then(|x| x.get("required")).and_then(|x| x.as_array());
    match q {
        Some(a) => a.iter().filter_map(|x| x.as_str().map(str::to_string)).collect(),
        None => Vec::new(),
    }
}

/// Reads the tool list out of a discovery response's result payload: one
/// descriptor per `tools` entry, each field exactly the named reading of
/// those bytes.
pub fn decode_tools(result: &[u8]) -> (r: Vec<McpTool>)
    ensures
        r@.len() == spec_wire_tools_len(result@),
        forall|j: int|
            0 <= j < r@.len() ==> {
                let t = #[trigger] r@[j];
                &&& (t.name, t.description) == spec_wire_tool_names(result@, j)
                &&& (t.input_schema.schema_type, t.input_schema.properties)
                    == spec_wire_tool_schema(result@, j)
                &&& t.input_schema.required@ == spec_wire_tool_required(result@, j)
            },
{
    let n = wire_tools_len(result);
    let mut out: Vec<McpTool> = Vec::new();
    let mut i: usize = 0;
    while i < n
        invariant
            n as int == spec_wire_tools_len(result@),
            i <= n,
            out@.len() == i,
            forall|j: int|
                0 <= j < i ==> {
                    let t = #[trigger] out@[j];
                    &&& (t.name, t.description) == spec_wire_tool_names(result@, j)
                    &&& (t.input_schema.schema_type, t.input_schema.properties)
                        == spec_wire_tool_schema(result@, j)
                    &&& t.input_schema.required@ == spec_wire_tool_required(result@, j)
                },
        decreases n - i,
    {
        let (name, description) = read_tool_names(result, i);
        let (schema_type, properties) = read_tool_schema(result, i);
        let required = read_tool_required(result, i);
        out.push(
            McpTool {
                name,
                description,
                input_schema: McpToolInputSchema { schema_type, properties, required },
            },
        );
        i += 1;
    }
    out
}

/// Whether a `tools/call` result document carries a structured result —
/// it is JSON with a `content` array — and, when it does, its `isError`
/// flag, absent reading as false. A function of the bytes alone.
pub uninterp spec fn spec_wire_error_flag(bytes: Seq<u8>) -> Option<bool>;

/// How many blocks the `content` array of a result document has; zero
/// when there is none. A function of the bytes alone.
pub uninterp spec fn spec_wire_content_len(bytes: Seq<u8>) -> int;

/// Block `i` of a result document's `content` array: a text block with
/// its text, an image block with data and media type (absent fields
/// reading as empty), a resource block as the resource's JSON text;
/// anything else is nothing. A function of the bytes alone.
pub uninterp spec fn spec_wire_content_at(bytes: Seq<u8>, i: int) -> Option<McpContent>;

/// Relies on serde_json::from_slice, Value::get, Value::as_array and
/// Value::as_bool: whether the document has a `content` array, and its
/// `isError` flag.
#[verifier::external_body]
fn read_error_flag(bytes: &[u8]) -> (r: Option<bool>)
    ensures
        r == spec_wire_error_flag(bytes@),
{
    let v: serde_json::Value = serde_json::from_slice(bytes).ok()?;
    v.get("content")?.as_array()?;
    Some(v.get("isError").and_then(|e| e.as_bool()).unwrap_or(false))
}

/// Relies on serde_json::from_slice, Value::get and Value::as_array: how
/// many blocks the `content` array has.
#[verifier::external_body]
fn wire_content_len(bytes: &[u8]) -> (r: usize)
    ensures
        r as int == spec_wire_content_len(bytes@),
{
    serde_json::from_slice::<serde_json::Value>(bytes)
        .ok()
        .and_then(|v| v.get("content").and_then(|c| c.as_array()).map(|a| a.len()))
        .unwrap_or(0)
}

/// Relies on serde_json::from_slice, Value::get, Value::as_str,
/// Value::as_array and serde_json::to_string: one block of the `content`
/// array, as the name's account says.
#[verifier::external_body]
fn read_content_at(bytes: &[u8], i: usize) -> (r: Option<McpContent>)
    ensures
        r == spec_wire_content_at(bytes@, i as int),
{
    let v: serde_json::Value = serde_json::from_slice(bytes).ok()?;
    let c = v.get("content")?.as_array()?.get(i)?;
    match c.get("type")?.as_str()? {
        "text" => Some(McpContent::Text { text: c.get("text")?.as_str()?.to_string() }),
        "image" => Some(McpContent::Image {
            data: c.get("data").and_then(|d| d.as_str()).unwrap_or("").to_string(),
            mime_type: c.get("mime_type").and_then(|m| m.as_str()).unwrap_or("").to_string(),
        }),
        "resource" => Some(McpContent::Resource { resource: serde_json::to_string(c.get("resource")?).ok()? }),
        _ => None,
    }
}

/// The blocks of the first `n` entries of a result document's `content`
/// array, unrecognised blocks skipped.
pub open spec fn spec_decoded_blocks(bytes: Seq<u8>, n: int) -> Seq<McpContent>
    decreases n,
{
    if n <= 0 {
        Seq::empty()
    } else {
        spec_decoded_blocks(bytes, n - 1) + (match spec_wire_content_at(bytes, n - 1) {
            Some(c) => seq![c],
            None => Seq::<McpContent>::empty(),
        })
    }
}

/// Reads a tool invocation's structured result out of its result payload:
/// exactly the named blocks and error flag of those bytes; a payload
/// without a `content` array is no structured result, and the caller
/// reports the call failed.
pub fn decode_tool_result(result: &[u8]) -> (r: Option<McpToolResult>)
    ensures
        match r {
            Some(res) => spec_wire_error_flag(result@) == Some(res.is_error) && res.content@
                == spec_decoded_blocks(result@, spec_wire_content_len(result@)),
            None => spec_wire_error_flag(result@) is None,
        },
{
    let is_error = match read_error_flag(result) {
        Some(b) => b,
        None => {
            return None;
        },
    };
    let n = wire_content_len(result);
    let mut content: Vec<McpContent> = Vec::new();
    let mut i: usize = 0;
    proof {
        assert(content@ =~= spec_decoded_blocks(result@, 0));
    }
    while i < n
        invariant
            n as int == spec_wire_content_len(result@),
            i <= n,
            content@ == spec_decoded_blocks(result@, i as int),
        decreases n - i,
    {
        match read_content_at(result, i) {
            Some(c) => {
                content.push(c);
            },
            None => {
                proof {
                    assert(content@ + Seq::<McpContent>::empty() =~= content@);
                }
            },
        }
        i += 1;
    }
    Some(McpToolResult { content, is_error })
}

} // verus!
