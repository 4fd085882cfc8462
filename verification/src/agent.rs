//! The agent loop: a bounded state machine over one conversation turn that
//! alternates completion requests with the tool calls they ask for, until
//! the model stops requesting tools or the iteration cap is reached.
//!
//! The surrounding program drives it: while [`AgentLoop::has_iterations_left`]
//! holds it obtains one completion, hands it to
//! [`AgentLoop::observe_completion`], executes the returned tool calls in
//! order, records each result with [`AgentLoop::record_tool_result`], and on
//! `Stop` reads [`AgentLoop::outcome`].

use vstd::prelude::*;
use vstd::string::*;
use crate::errors::McpError;
use crate::llm::{FunctionCall, LlmMessage, ToolCall};

verus! {

/// What the loop should do after one completion.
pub enum AgentDirective {
    /// Execute these tool calls in order, then ask for the next completion.
    RunTools(Vec<ToolCall>),
    /// The model requested no tools: the turn is over.
    Stop,
}

/// A copy of one requested tool call, field for field.
pub fn clone_tool_call(c: &ToolCall) -> (r: ToolCall)
    ensures
        r == *c,
{
    ToolCall {
        id: c.id.clone(),
        call_type: c.call_type.clone(),
        function: FunctionCall {
            name: c.function.name.clone(),
            arguments: c.function.arguments.clone(),
        },
    }
}

/// A copy of a list of requested tool calls.
pub fn clone_tool_calls(v: &Vec<ToolCall>) -> (r: Vec<ToolCall>)
    ensures
        r@ == v@,
{
    let mut out: Vec<ToolCall> = Vec::new();
    let mut i: usize = 0;
    while i < v.len()
        invariant
            i <= v@.len(),
            out@ =~= v@.subrange(0, i as int),
        decreases v@.len() - i,
    {
        out.push(clone_tool_call(&v[i]));
        i += 1;
    }
    proof {
        assert(out@ =~= v@);
    }
    out
}

/// The best answer after seeing a completion's content: non-empty content
/// replaces it, anything else leaves it.
pub open spec fn spec_best_after(best: Seq<char>, content: Option<Seq<char>>) -> Seq<char> {
    match content {
        Some(c) => if c.len() > 0 {
            c
        } else {
            best
        },
        None => best,
    }
}

/// The view of an optional content string.
pub open spec fn spec_content_view(c: Option<String>) -> Option<Seq<char>> {
    match c {
        Some(s) => Some(s@),
        None => None,
    }
}

/// What one finished turn yields: the recorded answer, or nothing at all.
pub open spec fn spec_outcome(s: AgentLoop) -> Result<Seq<char>, McpError> {
    if s.final_response@.len() == 0 {
        Err(McpError::NoContent)
    } else {
        Ok(s.final_response@)
    }
}

/// One conversation turn, bounded by the configured iteration cap.
pub struct AgentLoop {
    /// The message sequence of the turn so far, append-only.
    pub messages: Vec<LlmMessage>,
    /// The last non-empty content a completion produced; empty while none.
    pub final_response: String,
    /// How many completions were observed.
    pub iterations: usize,
    /// The most completions one turn may use.
    pub max_tool_iterations: usize,
}

impl AgentLoop {
    /// A fresh turn over the given message sequence.
    pub fn new(messages: Vec<LlmMessage>, max_tool_iterations: usize) -> (r: AgentLoop)
        ensures
            r.messages@ == messages@,
            r.final_response@.len() == 0,
            r.iterations == 0,
            r.max_tool_iterations == max_tool_iterations,
    {
        AgentLoop {
            messages,
            final_response: String::new(),
            iterations: 0,
            max_tool_iterations,
        }
    }

    /// Whether another completion may be requested: the cap is not reached.
    /// Once this is false the loop stops without another completion.
    pub fn has_iterations_left(&self) -> (b: bool)
        ensures
            b == (self.iterations < self.max_tool_iterations),
    {
        self.iterations < self.max_tool_iterations
    }

    /// Takes one completion: non-empty content becomes the answer so far;
    /// with no tool calls the turn is over; otherwise the assistant message
    /// carrying content and calls is appended and the calls are returned
    /// for execution, in the order received.
    pub fn observe_completion(&mut self, content: Option<String>, tool_calls: Vec<ToolCall>) -> (d:
        AgentDirective)
        requires
            old(self).iterations < old(self).max_tool_iterations,
        ensures
            final(self).max_tool_iterations == old(self).max_tool_iterations,
            final(self).iterations == old(self).iterations + 1,
            final(self).final_response@ == spec_best_after(
                old(self).final_response@,
                spec_content_view(content),
            ),
            tool_calls@.len() == 0 ==> d is Stop && final(self).messages@ == old(self).messages@,
            tool_calls@.len() > 0 ==> {
                &&& d matches AgentDirective::RunTools(tc) && tc@ == tool_calls@
                &&& final(self).messages@.len() == old(self).messages@.len() + 1
                &&& final(self).messages@.subrange(0, old(self).messages@.len() as int) == old(self).messages@
                &&& final(self).messages@.last().role@ == "assistant"@
                &&& final(self).messages@.last().tool_calls matches Some(tc2) && tc2@
                    == tool_calls@
                &&& match content {
                    Some(c) => final(self).messages@.last().content matches Some(mc) && mc@
                        == c@,
                    None => final(self).messages@.last().content is None,
                }
            },
    {
        self.iterations = self.iterations + 1;
        let has_content = match &content {
            Some(c) => !c.as_str().is_empty(),
            None => false,
        };
        if tool_calls.len() == 0 {
            if has_content {
                if let Some(c) = content {
                    self.final_response = c;
                }
            }
            return AgentDirective::Stop;
        }
        let kept = clone_tool_calls(&tool_calls);
        let message = LlmMessage {
            role: "assistant".to_owned(),
            content: match &content {
                Some(c) => Some(c.clone()),
                None => None,
            },
            tool_calls: Some(kept),
            tool_call_id: None,
        };
        if has_content {
            if let Some(c) = content {
                self.final_response = c;
            }
        }
        let ghost before = self.messages@;
        self.messages.push(message);
        proof {
            assert(self.messages@.subrange(0, before.len() as int) =~= before);
        }
        AgentDirective::RunTools(tool_calls)
    }

    /// Appends the tool-result message for one executed call, tagged with
    /// the id of the call it answers, immediately after execution.
    pub fn record_tool_result(&mut self, result_text: &str, call_id: &str)
        ensures
            final(self).iterations == old(self).iterations,
            final(self).max_tool_iterations == old(self).max_tool_iterations,
            final(self).final_response == old(self).final_response,
            final(self).messages@.len() == old(self).messages@.len() + 1,
            final(self).messages@.subrange(0, old(self).messages@.len() as int) == old(self).messages@,
            final(self).messages@.last().role@ == "tool"@,
            final(self).messages@.last().content matches Some(c) && c@ == result_text@,
            final(self).messages@.last().tool_call_id matches Some(id) && id@ == call_id@,
            final(self).messages@.last().tool_calls is None,
    {
        let ghost before = self.messages@;
        self.messages.push(LlmMessage::tool(result_text, call_id));
        proof {
            assert(self.messages@.subrange(0, before.len() as int) =~= before);
        }
    }

    /// The turn's result: the answer recorded so far, or `NoContent` when
    /// no completion ever produced any.
    pub fn outcome(&self) -> (r: Result<String, McpError>)
        ensures
            match r {
                Ok(c) => spec_outcome(*self) == Ok::<Seq<char>, McpError>(c@),
                Err(e) => e is NoContent && spec_outcome(*self) == Err::<
                    Seq<char>,
                    McpError,
                >(McpError::NoContent),
            },
    {
        if self.final_response.as_str().is_empty() {
            Err(McpError::NoContent)
        } else {
            Ok(self.final_response.clone())
        }
    }
}

/// One observed completion, seen from outside: whatever tools it
/// requested, the iteration count rises by one, the cap stays, and the
/// answer so far becomes [`spec_best_after`] of the old answer and the
/// completion's content — which is exactly what
/// [`AgentLoop::observe_completion`] ensures of every call.
pub open spec fn observed_step(pre: AgentLoop, post: AgentLoop, content: Option<Seq<char>>) -> bool {
    &&& post.max_tool_iterations == pre.max_tool_iterations
    &&& post.iterations == pre.iterations + 1
    &&& post.final_response@ == spec_best_after(pre.final_response@, content)
}

/// The last non-empty content of a run of completions, or the empty
/// answer when none of them produced any.
pub open spec fn spec_last_nonempty(contents: Seq<Option<Seq<char>>>) -> Seq<char>
    decreases contents.len(),
{
    if contents.len() == 0 {
        Seq::empty()
    } else {
        spec_best_after(spec_last_nonempty(contents.drop_last()), contents.last())
    }
}

/// What any run of the loop yields. A fresh turn observes one completion
/// per iteration, never more than the cap: after `k` completions the count
/// is `k`, and at the cap no further completion is requested. The answer
/// so far is always the last non-empty content observed — empty or absent
/// content never clears an earlier answer — so the turn's outcome is that
/// content, or `NoContent` when no completion ever produced any: a
/// provider that keeps requesting tools without content drives the loop to
/// exactly the cap and the turn fails with `NoContent`.
pub proof fn lemma_agent_loop_run(
    states: Seq<AgentLoop>,
    contents: Seq<Option<Seq<char>>>,
    cap: usize,
)
    requires
        states.len() == contents.len() + 1,
        states[0].iterations == 0,
        states[0].max_tool_iterations == cap,
        states[0].final_response@.len() == 0,
        contents.len() <= cap,
        forall|i: int|
            0 <= i < contents.len() ==> observed_step(
                #[trigger] states[i],
                states[i + 1],
                contents[i],
            ),
    ensures
        states.last().iterations == contents.len(),
        states.last().max_tool_iterations == cap,
        states.last().final_response@ == spec_last_nonempty(contents),
        contents.len() == cap ==> !(states.last().iterations
            < states.last().max_tool_iterations),
        spec_outcome(states.last()) == (if spec_last_nonempty(contents).len() == 0 {
            Err::<Seq<char>, McpError>(McpError::NoContent)
        } else {
            Ok::<Seq<char>, McpError>(spec_last_nonempty(contents))
        }),
    decreases states.len(),
{
    if contents.len() > 0 {
        lemma_agent_loop_run(states.drop_last(), contents.drop_last(), cap);
        assert(observed_step(
            states[states.len() - 2],
            states[states.len() - 1],
            contents[contents.len() - 1],
        ));
        assert(states.drop_last().last() == states[states.len() - 2]);
        assert(states.drop_last()[0] == states[0]);
        assert(forall|i: int|
            0 <= i < contents.drop_last().len() ==> observed_step(
                #[trigger] states.drop_last()[i],
                states.drop_last()[i + 1],
                contents.drop_last()[i],
            ));
    }
}

/// A completion with an empty tool-call list ends the turn at once: on a
/// fresh loop, one completion that carries content and requests no tools
/// leaves the message sequence untouched and the outcome is exactly that
/// content.
pub proof fn lemma_no_tools_terminates_first_iteration(pre: AgentLoop, post: AgentLoop, content: String)
    requires
        pre.final_response@.len() == 0,
        pre.iterations == 0,
        content@.len() > 0,
        // what observe_completion with this content and no tool calls ensures:
        post.max_tool_iterations == pre.max_tool_iterations,
        post.iterations == pre.iterations + 1,
        post.final_response@ == spec_best_after(pre.final_response@, spec_content_view(Some(content))),
        post.messages@ == pre.messages@,
    ensures
        post.final_response@ == content@,
        spec_outcome(post) == Ok::<Seq<char>, McpError>(content@),
        post.iterations == 1,
{
}

/// A snapshot of the running system, for status reporting.
pub struct ChatStats {
    pub conversation_count: usize,
    pub rag_enabled: bool,
    pub mcp_enabled: bool,
    pub llm_model: String,
}

} // verus!
