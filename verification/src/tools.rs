//! Tool descriptors as a server's discovery response reports them, and the
//! structured result of one tool invocation.

use vstd::prelude::*;
use vstd::string::*;
use vstd::utf8::encode_utf8;

verus! {

/// The input schema of a tool: its type tag, the property map as raw JSON
/// text, and the names of the required fields.
pub struct McpToolInputSchema {
    pub schema_type: String,
    pub properties: String,
    pub required: Vec<String>,
}

/// One callable tool of a server.
pub struct McpTool {
    pub name: String,
    pub description: String,
    pub input_schema: McpToolInputSchema,
}

/// One content block of a tool result.
pub enum McpContent {
    /// Plain text.
    Text { text: String },
    /// An image, base64 data with its media type.
    Image { data: String, mime_type: String },
    /// An opaque resource, kept as raw JSON text.
    Resource { resource: String },
}

/// What one tool invocation produced: ordered content blocks and an error
/// flag the server may set.
pub struct McpToolResult {
    pub content: Vec<McpContent>,
    pub is_error: bool,
}

/// The text blocks of a result, in order; other block kinds contribute
/// nothing.
pub open spec fn spec_text_blocks(content: Seq<McpContent>) -> Seq<Seq<char>>
    decreases content.len(),
{
    if content.len() == 0 {
        Seq::empty()
    } else {
        spec_text_blocks(content.drop_last()) + (match content.last() {
            McpContent::Text { text } => seq![text@],
            _ => Seq::<Seq<char>>::empty(),
        })
    }
}

/// The pieces joined with a line feed between each pair.
pub open spec fn spec_join_lines(pieces: Seq<Seq<char>>) -> Seq<char>
    decreases pieces.len(),
{
    if pieces.len() == 0 {
        Seq::empty()
    } else if pieces.len() == 1 {
        pieces[0]
    } else {
        spec_join_lines(pieces.drop_last()) + "\n"@ + pieces.last()
    }
}

/// The text the agent loop hands back to the model for one result: the
/// result's text blocks joined by line breaks when the server reports
/// success, and an error note in front of them when it flags an error.
pub open spec fn spec_result_text(r: McpToolResult) -> Seq<char> {
    if r.is_error {
        "工具调用错误: "@ + spec_join_lines(spec_text_blocks(r.content@))
    } else {
        spec_join_lines(spec_text_blocks(r.content@))
    }
}

/// Extracts the text of a tool result for the conversation, joining the
/// text blocks with line breaks; a result the server flagged as an error
/// becomes error text instead, and the loop stays alive.
pub fn tool_result_text(result: &McpToolResult) -> (r: String)
    ensures
        r@ == spec_result_text(*result),
{
    let ghost blocks = result.content@;
    let mut pieces: Vec<String> = Vec::new();
    let mut i: usize = 0;
    proof {
        assert(blocks.subrange(0, 0) =~= Seq::<McpContent>::empty());
        assert(pieces.deep_view() =~~= spec_text_blocks(blocks.subrange(0, 0)));
    }
    while i < result.content.len()
        invariant
            blocks == result.content@,
            i <= blocks.len(),
            pieces.deep_view() == spec_text_blocks(blocks.subrange(0, i as int)),
        decreases blocks.len() - i,
    {
        proof {
            assert(blocks.subrange(0, i + 1).drop_last() =~= blocks.subrange(0, i as int));
            assert(blocks.subrange(0, i + 1).last() == blocks[i as int]);
        }
        let ghost old_dv = pieces.deep_view();
        match &result.content[i] {
            McpContent::Text { text } => {
                let t = text.clone();
                pieces.push(t);
                proof {
                    assert(pieces.deep_view() =~~= old_dv.push(text@));
                    assert(pieces.deep_view() =~= spec_text_blocks(blocks.subrange(0, i + 1)));
                }
            },
            _ => {
                proof {
                    assert(old_dv + Seq::<Seq<char>>::empty() =~= old_dv);
                    assert(pieces.deep_view() =~= spec_text_blocks(blocks.subrange(0, i + 1)));
                }
            },
        }
        i += 1;
    }
    proof {
        assert(blocks.subrange(0, blocks.len() as int) =~= blocks);
    }
    let ghost pv = pieces.deep_view();
    let mut joined = String::new();
    let mut k: usize = 0;
    proof {
        assert(pv.subrange(0, 0) =~= Seq::<Seq<char>>::empty());
        assert(joined@ =~= spec_join_lines(pv.subrange(0, 0)));
    }
    while k < pieces.len()
        invariant
            pv == pieces.deep_view(),
            k <= pieces@.len(),
            pieces@.len() == pv.len(),
            joined@ == spec_join_lines(pv.subrange(0, k as int)),
        decreases pieces@.len() - k,
    {
        proof {
            assert(pv.subrange(0, k + 1).drop_last() =~= pv.subrange(0, k as int));
            assert(pv.subrange(0, k + 1).last() == pv[k as int]);
        }
        if k > 0 {
            joined.append("\n");
        }
        joined.append(pieces[k].as_str());
        proof {
            assert(pieces@[k as int]@ == pv[k as int]);
            if k == 0 {
                assert(pv.subrange(0, 1) =~= seq![pv[0]]);
                assert(joined@ =~= spec_join_lines(pv.subrange(0, 1)));
            } else {
                assert(joined@ =~= spec_join_lines(pv.subrange(0, k as int)) + "\n"@
                    + pv[k as int]);
                assert(joined@ =~= spec_join_lines(pv.subrange(0, k + 1)));
            }
        }
        k += 1;
    }
    proof {
        assert(pv.subrange(0, pv.len() as int) =~= pv);
    }
    if result.is_error {
        let mut out = "工具调用错误: ".to_owned();
        out.append(joined.as_str());
        out
    } else {
        joined
    }
}

/// A string as a JSON string literal: quoted, with its bytes escaped.
pub open spec fn spec_quoted(s: Seq<char>) -> Seq<u8> {
    encode_utf8("\""@) + crate::jsonrpc::spec_escape(encode_utf8(s)) + encode_utf8("\""@)
}

/// JSON string literals joined with commas, for an array body.
pub open spec fn spec_quoted_list(items: Seq<String>) -> Seq<u8>
    decreases items.len(),
{
    if items.len() == 0 {
        Seq::empty()
    } else if items.len() == 1 {
        spec_quoted(items[0]@)
    } else {
        spec_quoted_list(items.drop_last()) + encode_utf8(","@) + spec_quoted(items.last()@)
    }
}

/// One tool in the shape a completion provider expects: a function
/// declaration carrying the tool's name, description and input schema.
/// The property map is embedded verbatim; an empty one becomes `{}`.
pub open spec fn spec_provider_tool(t: McpTool) -> Seq<u8> {
    encode_utf8("{\"type\":\"function\",\"function\":{\"name\":"@) + spec_quoted(t.name@)
        + encode_utf8(",\"description\":"@) + spec_quoted(t.description@) + encode_utf8(
        ",\"parameters\":{\"type\":"@,
    ) + spec_quoted(t.input_schema.schema_type@) + encode_utf8(",\"properties\":"@) + (if t
        .input_schema.properties@.len() == 0 {
        encode_utf8("{}"@)
    } else {
        encode_utf8(t.input_schema.properties@)
    }) + encode_utf8(",\"required\":["@) + spec_quoted_list(t.input_schema.required@)
        + encode_utf8("]}}}"@)
}

fn append_quoted(out: &mut Vec<u8>, s: &str)
    ensures
        final(out)@ == old(out)@ + spec_quoted(s@),
{
    let mut q = "\"".as_bytes_vec();
    out.append(&mut q);
    let bytes = s.as_bytes_vec();
    let mut escaped = crate::jsonrpc::escape_json_bytes(bytes.as_slice());
    out.append(&mut escaped);
    let mut q2 = "\"".as_bytes_vec();
    out.append(&mut q2);
    proof {
        assert(out@ =~= old(out)@ + spec_quoted(s@));
    }
}

/// Renders one tool in the provider's schema shape, byte for byte as
/// [`spec_provider_tool`] lays it out; the surrounding program parses
/// these bytes into whatever value its request builder wants.
pub fn provider_tool_json(t: &McpTool) -> (r: Vec<u8>)
    ensures
        r@ == spec_provider_tool(*t),
{
    let mut out: Vec<u8> = "{\"type\":\"function\",\"function\":{\"name\":".as_bytes_vec();
    append_quoted(&mut out, t.name.as_str());
    let mut p1 = ",\"description\":".as_bytes_vec();
    out.append(&mut p1);
    append_quoted(&mut out, t.description.as_str());
    let mut p2 = ",\"parameters\":{\"type\":".as_bytes_vec();
    out.append(&mut p2);
    append_quoted(&mut out, t.input_schema.schema_type.as_str());
    let mut p3 = ",\"properties\":".as_bytes_vec();
    out.append(&mut p3);
    if t.input_schema.properties.as_str().is_empty() {
        let mut empty_obj = "{}".as_bytes_vec();
        out.append(&mut empty_obj);
    } else {
        let mut props = t.input_schema.properties.as_str().as_bytes_vec();
        out.append(&mut props);
    }
    let mut p4 = ",\"required\":[".as_bytes_vec();
    out.append(&mut p4);
    let ghost base = out@;
    let required = &t.input_schema.required;
    let mut k: usize = 0;
    proof {
        assert(required@.subrange(0, 0) =~= Seq::<String>::empty());
        assert(out@ =~= base + spec_quoted_list(required@.subrange(0, 0)));
    }
    while k < required.len()
        invariant
            k <= required@.len(),
            out@ == base + spec_quoted_list(required@.subrange(0, k as int)),
        decreases required@.len() - k,
    {
        proof {
            assert(required@.subrange(0, k + 1).drop_last() =~= required@.subrange(0, k as int));
            assert(required@.subrange(0, k + 1).last() == required@[k as int]);
        }
        if k > 0 {
            let mut comma = ",".as_bytes_vec();
            out.append(&mut comma);
        }
        append_quoted(&mut out, required[k].as_str());
        proof {
            if k == 0 {
                assert(required@.subrange(0, 1) =~= seq![required@[0]]);
            }
            assert(out@ =~= base + spec_quoted_list(required@.subrange(0, k + 1)));
        }
        k += 1;
    }
    proof {
        assert(required@.subrange(0, required@.len() as int) =~= required@);
    }
    let mut close = "]}}}".as_bytes_vec();
    out.append(&mut close);
    proof {
        assert(out@ =~= spec_provider_tool(*t));
    }
    out
}

} // verus!
