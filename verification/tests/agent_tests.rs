use xiaoshi::agent::{AgentDirective, AgentLoop};
use xiaoshi::errors::McpError;
use xiaoshi::llm::{FunctionCall, LlmMessage, ToolCall};

fn weather_call(id: &str) -> ToolCall {
    ToolCall {
        id: id.to_string(),
        call_type: "function".to_string(),
        function: FunctionCall {
            name: "weather".to_string(),
            arguments: "{\"city\":\"x\"}".to_string(),
        },
    }
}

// The provider always requests the same tool and never returns content:
// the loop runs exactly the configured number of completions, executes one
// tool call per iteration, then stops and fails for want of content.
#[test]
fn test_loop_stops_at_iteration_cap() {
    let start = vec![LlmMessage::system("sys"), LlmMessage::user("q")];
    let mut agent = AgentLoop::new(start, 3);
    let mut completions = 0;
    let mut tool_calls_executed = 0;
    while agent.has_iterations_left() {
        completions += 1;
        match agent.observe_completion(None, vec![weather_call("c")]) {
            AgentDirective::RunTools(calls) => {
                for call in &calls {
                    tool_calls_executed += 1;
                    agent.record_tool_result("rain", &call.id);
                }
            },
            AgentDirective::Stop => panic!("the loop should keep running until the cap"),
        }
    }
    assert_eq!(completions, 3);
    assert_eq!(tool_calls_executed, 3);
    assert!(matches!(agent.outcome(), Err(McpError::NoContent)));
    // per iteration: one assistant message and one tool result
    assert_eq!(agent.messages.len(), 2 + 3 * 2);
}

// A completion with no tool calls ends the turn on the first iteration and
// its content comes back unchanged.
#[test]
fn test_no_tool_calls_terminates_immediately() {
    let start = vec![LlmMessage::system("sys"), LlmMessage::user("q")];
    let mut agent = AgentLoop::new(start, 10);
    let mut completions = 0;
    let mut tool_calls_executed = 0;
    while agent.has_iterations_left() {
        completions += 1;
        match agent.observe_completion(Some("done".to_string()), vec![]) {
            AgentDirective::Stop => break,
            AgentDirective::RunTools(_) => tool_calls_executed += 1,
        }
    }
    assert_eq!(completions, 1);
    assert_eq!(tool_calls_executed, 0);
    assert_eq!(agent.outcome().unwrap(), "done");
    assert_eq!(agent.messages.len(), 2);
}

#[test]
fn test_last_nonempty_content_wins() {
    let mut agent = AgentLoop::new(vec![], 5);
    agent.observe_completion(Some("first".to_string()), vec![weather_call("a")]);
    agent.record_tool_result("r1", "a");
    agent.observe_completion(Some(String::new()), vec![weather_call("b")]);
    agent.record_tool_result("r2", "b");
    agent.observe_completion(Some("second".to_string()), vec![]);
    assert_eq!(agent.outcome().unwrap(), "second");
    assert_eq!(agent.iterations, 3);
}

#[test]
fn test_zero_cap_never_completes() {
    let agent = AgentLoop::new(vec![], 0);
    assert!(!agent.has_iterations_left());
    assert!(matches!(agent.outcome(), Err(McpError::NoContent)));
}

#[test]
fn test_tool_result_message_shape() {
    let mut agent = AgentLoop::new(vec![], 2);
    agent.observe_completion(None, vec![weather_call("call_7")]);
    agent.record_tool_result("sunny", "call_7");
    let last = agent.messages.last().unwrap();
    assert_eq!(last.role, "tool");
    assert_eq!(last.content.as_deref(), Some("sunny"));
    assert_eq!(last.tool_call_id.as_deref(), Some("call_7"));
    let assistant = &agent.messages[agent.messages.len() - 2];
    assert_eq!(assistant.role, "assistant");
    assert_eq!(assistant.tool_calls.as_ref().unwrap().len(), 1);
}

#[test]
fn test_no_content_error_text() {
    let agent = AgentLoop::new(vec![], 0);
    match agent.outcome() {
        Err(e) => assert_eq!(e.describe(), "LLM 没有返回有效内容"),
        Ok(_) => panic!("expected no content"),
    }
}
