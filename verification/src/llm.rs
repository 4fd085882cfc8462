//! Messages exchanged with a completion provider, the tool calls a
//! completion may request, and the provider endpoint address.

use vstd::prelude::*;
use vstd::string::*;
use crate::text::{ends_with_str, spec_ends_with};

verus! {

/// One function invocation requested by a completion: the tool's name and
/// its raw argument text, parsed only when the tool is executed.
pub struct FunctionCall {
    pub name: String,
    pub arguments: String,
}

/// A requested tool call: its correlation id, the call type tag the
/// provider uses, and the function to invoke.
pub struct ToolCall {
    pub id: String,
    pub call_type: String,
    pub function: FunctionCall,
}

/// One message of a conversation: a role, optional text, the tool calls an
/// assistant message carries, and the originating call id of a tool result.
pub struct LlmMessage {
    pub role: String,
    pub content: Option<String>,
    pub tool_calls: Option<Vec<ToolCall>>,
    pub tool_call_id: Option<String>,
}

impl LlmMessage {
    /// A system message.
    pub fn system(content: &str) -> (r: LlmMessage)
        ensures
            r.role@ == "system"@,
            r.content matches Some(c) && c@ == content@,
            r.tool_calls is None,
            r.tool_call_id is None,
    {
        LlmMessage {
            role: "system".to_owned(),
            content: Some(content.to_owned()),
            tool_calls: None,
            tool_call_id: None,
        }
    }

    /// A user message.
    pub fn user(content: &str) -> (r: LlmMessage)
        ensures
            r.role@ == "user"@,
            r.content matches Some(c) && c@ == content@,
            r.tool_calls is None,
            r.tool_call_id is None,
    {
        LlmMessage {
            role: "user".to_owned(),
            content: Some(content.to_owned()),
            tool_calls: None,
            tool_call_id: None,
        }
    }

    /// An assistant message that carries only text.
    pub fn assistant(content: &str) -> (r: LlmMessage)
        ensures
            r.role@ == "assistant"@,
            r.content matches Some(c) && c@ == content@,
            r.tool_calls is None,
            r.tool_call_id is None,
    {
        LlmMessage {
            role: "assistant".to_owned(),
            content: Some(content.to_owned()),
            tool_calls: None,
            tool_call_id: None,
        }
    }

    /// An assistant message that carries the tool calls the completion
    /// requested, beside its optional text.
    pub fn assistant_with_tool_calls(content: Option<&str>, tool_calls: Vec<ToolCall>) -> (r:
        LlmMessage)
        ensures
            r.role@ == "assistant"@,
            match content {
                Some(s) => r.content matches Some(c) && c@ == s@,
                None => r.content is None,
            },
            r.tool_calls matches Some(tc) && tc@ == tool_calls@,
            r.tool_call_id is None,
    {
        let owned: Option<String> = match content {
            Some(s) => Some(s.to_owned()),
            None => None,
        };
        LlmMessage {
            role: "assistant".to_owned(),
            content: owned,
            tool_calls: Some(tool_calls),
            tool_call_id: None,
        }
    }

    /// A tool-result message, tagged with the id of the call it answers.
    pub fn tool(content: &str, tool_call_id: &str) -> (r: LlmMessage)
        ensures
            r.role@ == "tool"@,
            r.content matches Some(c) && c@ == content@,
            r.tool_calls is None,
            r.tool_call_id matches Some(id) && id@ == tool_call_id@,
    {
        LlmMessage {
            role: "tool".to_owned(),
            content: Some(content.to_owned()),
            tool_calls: None,
            tool_call_id: Some(tool_call_id.to_owned()),
        }
    }

    /// A plain message from a stored role and content pair.
    pub fn from_tuple(role: &str, content: &str) -> (r: LlmMessage)
        ensures
            r.role@ == role@,
            r.content matches Some(c) && c@ == content@,
            r.tool_calls is None,
            r.tool_call_id is None,
    {
        LlmMessage {
            role: role.to_owned(),
            content: Some(content.to_owned()),
            tool_calls: None,
            tool_call_id: None,
        }
    }
}

/// What one completion request came back with: optional text and the list
/// of tool calls the model asks for, possibly empty.
pub struct CompletionResponse {
    pub content: Option<String>,
    pub tool_calls: Vec<ToolCall>,
}

impl CompletionResponse {
    /// Whether the completion requests any tool call.
    pub fn has_tool_calls(&self) -> (r: bool)
        ensures
            r == (self.tool_calls@.len() > 0),
    {
        self.tool_calls.len() > 0
    }
}

/// Converts stored role and content pairs into the message sequence a
/// completion request carries, in order.
pub fn messages_from_history(history: &Vec<(String, String)>) -> (r: Vec<LlmMessage>)
    ensures
        r@.len() == history@.len(),
        forall|i: int|
            0 <= i < history@.len() ==> {
                let m = #[trigger] r@[i];
                &&& m.role@ == history@[i].0@
                &&& m.content matches Some(c) && c@ == history@[i].1@
                &&& m.tool_calls is None
                &&& m.tool_call_id is None
            },
{
    let mut out: Vec<LlmMessage> = Vec::new();
    let mut i: usize = 0;
    while i < history.len()
        invariant
            i <= history@.len(),
            out@.len() == i,
            forall|j: int|
                0 <= j < i ==> {
                    let m = #[trigger] out@[j];
                    &&& m.role@ == history@[j].0@
                    &&& m.content matches Some(c) && c@ == history@[j].1@
                    &&& m.tool_calls is None
                    &&& m.tool_call_id is None
                },
        decreases history@.len() - i,
    {
        let m = LlmMessage::from_tuple(history[i].0.as_str(), history[i].1.as_str());
        out.push(m);
        i += 1;
    }
    out
}

/// `s` without its trailing `/` characters.
pub open spec fn spec_trim_end_slashes(s: Seq<char>) -> Seq<char>
    decreases s.len(),
{
    if s.len() > 0 && s.last() == '/' {
        spec_trim_end_slashes(s.drop_last())
    } else {
        s
    }
}

/// The address completions are posted to: the base address as given when it
/// already names the completions path, else the base address, without
/// trailing slashes, with `/chat/completions` appended.
pub open spec fn spec_completion_url(base: Seq<char>) -> Seq<char> {
    if spec_ends_with(base, "/chat/completions"@) {
        base
    } else {
        spec_trim_end_slashes(base) + "/chat/completions"@
    }
}

/// Derives the completions endpoint from a configured base address.
pub fn completion_url(base: &str) -> (r: String)
    ensures
        r@ == spec_completion_url(base@),
{
    if ends_with_str(base, "/chat/completions") {
        return base.to_owned();
    }
    let n = base.unicode_len();
    let mut e: usize = n;
    proof {
        assert(base@.subrange(0, n as int) =~= base@);
    }
    while e > 0 && base.get_char(e - 1) == '/'
        invariant
            e <= n,
            n == base@.len(),
            spec_trim_end_slashes(base@) == spec_trim_end_slashes(base@.subrange(0, e as int)),
        decreases e,
    {
        proof {
            assert(base@.subrange(0, e as int).drop_last() =~= base@.subrange(0, e - 1));
        }
        e -= 1;
    }
    proof {
        assert(spec_trim_end_slashes(base@.subrange(0, e as int)) =~= base@.subrange(
            0,
            e as int,
        ));
    }
    let head = base.substring_char(0, e);
    let mut r = head.to_owned();
    r.append("/chat/completions");
    r
}

} // verus!
