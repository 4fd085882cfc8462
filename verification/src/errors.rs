//! The error taxonomy of the protocol layer and the agent loop, with a
//! verified rendering of each error as readable text.

use vstd::prelude::*;
use vstd::string::*;
use crate::text::{i64_to_string, spec_i64_string};

verus! {

/// Everything that can go wrong between the agent and a tool server.
#[derive(Debug)]
pub enum McpError {
    /// No response arrived within the deadline.
    Timeout,
    /// The connection, process or channel failed; the text says how.
    Transport(String),
    /// The server answered with a JSON-RPC error.
    Protocol { code: i64, message: String },
    /// No server owns a tool of this name.
    NotFound(String),
    /// The loop ended without the model ever producing content.
    NoContent,
}

/// The readable text of each error.
pub open spec fn spec_describe(e: McpError) -> Seq<char> {
    match e {
        McpError::Timeout => "MCP 请求超时"@,
        McpError::Transport(m) => "传输错误: "@ + m@,
        McpError::Protocol { code, message } => "MCP 错误: "@ + message@ + " (code: "@
            + spec_i64_string(code as int) + ")"@,
        McpError::NotFound(name) => "找不到工具 "@ + name@ + " 对应的 MCP 服务器"@,
        McpError::NoContent => "LLM 没有返回有效内容"@,
    }
}

impl McpError {
    /// Renders the error as readable text.
    pub fn describe(&self) -> (r: String)
        ensures
            r@ == spec_describe(*self),
    {
        match self {
            McpError::Timeout => "MCP 请求超时".to_owned(),
            McpError::Transport(m) => {
                let mut s = "传输错误: ".to_owned();
                s.append(m.as_str());
                s
            },
            McpError::Protocol { code, message } => {
                let mut s = "MCP 错误: ".to_owned();
                s.append(message.as_str());
                s.append(" (code: ");
                let digits = i64_to_string(*code);
                s.append(digits.as_str());
                s.append(")");
                s
            },
            McpError::NotFound(name) => {
                let mut s = "找不到工具 ".to_owned();
                s.append(name.as_str());
                s.append(" 对应的 MCP 服务器");
                s
            },
            McpError::NoContent => "LLM 没有返回有效内容".to_owned(),
        }
    }
}

/// The text the agent loop records when a tool call fails: the loop stays
/// alive and the model sees this instead of a result.
pub fn tool_failure_text(e: &McpError) -> (r: String)
    ensures
        r@ == "工具调用失败: "@ + spec_describe(*e),
{
    let mut s = "工具调用失败: ".to_owned();
    let d = e.describe();
    s.append(d.as_str());
    s
}

} // verus!
