use xiaoshi::catalog::ToolCatalog;
use xiaoshi::client::{call_tool_params, decode_tool_result, decode_tools, initialize_params, McpClient};
use xiaoshi::errors::McpError;
use xiaoshi::tools::{tool_result_text, McpContent, McpTool, McpToolInputSchema, McpToolResult};

fn tool(name: &str, desc: &str) -> McpTool {
    McpTool {
        name: name.to_string(),
        description: desc.to_string(),
        input_schema: McpToolInputSchema {
            schema_type: "object".to_string(),
            properties: "{}".to_string(),
            required: Vec::new(),
        },
    }
}

// An unknown tool name fails with NotFound; no server is involved at all.
#[test]
fn test_call_tool_unknown_name_not_found() {
    let mut catalog = ToolCatalog::new();
    catalog.refresh_tools(vec![("srv-a".to_string(), Some(vec![tool("weather", "w")]))]);
    match catalog.route_call("no_such_tool") {
        Err(McpError::NotFound(name)) => assert_eq!(name, "no_such_tool"),
        _ => panic!("expected NotFound"),
    }
    assert_eq!(catalog.route_call("weather").unwrap(), "srv-a");
}

#[test]
fn test_empty_catalog_routes_nothing() {
    let catalog = ToolCatalog::new();
    assert!(!catalog.has_tools());
    assert!(matches!(catalog.route_call("anything"), Err(McpError::NotFound(_))));
}

// After one server starts failing discovery, a refresh removes only its
// tools; the other servers' tools remain queryable.
#[test]
fn test_refresh_removes_only_failing_servers_tools() {
    let mut catalog = ToolCatalog::new();
    catalog.refresh_tools(vec![
        ("srv-a".to_string(), Some(vec![tool("weather", "w")])),
        ("srv-b".to_string(), Some(vec![tool("translate", "t"), tool("search", "s")])),
    ]);
    assert_eq!(catalog.get_all_tools().len(), 3);
    assert_eq!(catalog.route_call("translate").unwrap(), "srv-b");

    // srv-b now fails discovery
    catalog.refresh_tools(vec![
        ("srv-a".to_string(), Some(vec![tool("weather", "w")])),
        ("srv-b".to_string(), None),
    ]);
    assert_eq!(catalog.get_all_tools().len(), 1);
    assert_eq!(catalog.route_call("weather").unwrap(), "srv-a");
    assert!(matches!(catalog.route_call("translate"), Err(McpError::NotFound(_))));
    assert!(matches!(catalog.route_call("search"), Err(McpError::NotFound(_))));
}

// On a name collision the later discovery wins, as rebuild overwrites.
#[test]
fn test_duplicate_tool_name_last_registered_wins() {
    let mut catalog = ToolCatalog::new();
    catalog.refresh_tools(vec![
        ("srv-a".to_string(), Some(vec![tool("shared", "a's")])),
        ("srv-b".to_string(), Some(vec![tool("shared", "b's")])),
    ]);
    assert_eq!(catalog.route_call("shared").unwrap(), "srv-b");
    // both descriptors stay in the flattened catalog
    assert_eq!(catalog.get_all_tools().len(), 2);
}

#[test]
fn test_provider_tool_shape() {
    let mut catalog = ToolCatalog::new();
    let mut t = tool("weather", "Gets weather");
    t.input_schema.properties = "{\"city\":{\"type\":\"string\"}}".to_string();
    t.input_schema.required = vec!["city".to_string()];
    catalog.refresh_tools(vec![("srv".to_string(), Some(vec![t]))]);
    let rendered = catalog.get_openai_tools();
    assert_eq!(rendered.len(), 1);
    let text = String::from_utf8(rendered[0].clone()).unwrap();
    assert_eq!(
        text,
        "{\"type\":\"function\",\"function\":{\"name\":\"weather\",\"description\":\"Gets weather\",\"parameters\":{\"type\":\"object\",\"properties\":{\"city\":{\"type\":\"string\"}},\"required\":[\"city\"]}}}"
    );
    // the provider shape parses as JSON
    let v: serde_json::Value = serde_json::from_slice(&rendered[0]).unwrap();
    assert_eq!(v["function"]["name"].as_str(), Some("weather"));
}

#[test]
fn test_client_handshake_guard() {
    let mut client = McpClient::new("srv".to_string());
    assert_eq!(client.name(), "srv");
    assert!(client.needs_initialize());
    client.mark_initialized();
    assert!(!client.needs_initialize());
}

#[test]
fn test_client_tool_cache_replaced_atomically() {
    let mut client = McpClient::new("srv".to_string());
    assert!(client.tools().is_empty());
    client.set_tools(vec![tool("a", ""), tool("b", "")]);
    assert_eq!(client.tools().len(), 2);
    client.set_tools(vec![tool("c", "")]);
    assert_eq!(client.tools().len(), 1);
    assert_eq!(client.tools()[0].name, "c");
}

#[test]
fn test_initialize_params_shape() {
    let params = initialize_params();
    let v: serde_json::Value = serde_json::from_slice(&params).unwrap();
    assert_eq!(v["protocolVersion"].as_str(), Some("2024-11-05"));
    assert_eq!(v["clientInfo"]["name"].as_str(), Some("xiaoshi"));
}

#[test]
fn test_call_tool_params_embeds_valid_arguments() {
    let params = call_tool_params("weather", "{\"city\":\"北京\"}");
    assert_eq!(
        String::from_utf8(params).unwrap(),
        "{\"name\":\"weather\",\"arguments\":{\"city\":\"北京\"}}"
    );
}

// Malformed argument text degrades to null rather than failing the call.
#[test]
fn test_call_tool_params_degrades_malformed_arguments() {
    let params = call_tool_params("weather", "not valid json");
    assert_eq!(
        String::from_utf8(params).unwrap(),
        "{\"name\":\"weather\",\"arguments\":null}"
    );
}

#[test]
fn test_decode_tools_from_discovery() {
    let result = "{\"tools\":[{\"name\":\"test_tool\",\"description\":\"A test tool\",\"inputSchema\":{\"type\":\"object\",\"properties\":{\"arg1\":{\"type\":\"string\"}},\"required\":[\"arg1\"]}},{\"description\":\"nameless\"}]}";
    let tools = decode_tools(result.as_bytes());
    assert_eq!(tools.len(), 2);
    assert_eq!(tools[0].name, "test_tool");
    assert_eq!(tools[0].description, "A test tool");
    assert_eq!(tools[0].input_schema.schema_type, "object");
    assert!(tools[0].input_schema.properties.contains("arg1"));
    assert_eq!(tools[0].input_schema.required, vec!["arg1".to_string()]);
    // an entry without a name reads field for field, the name empty
    assert_eq!(tools[1].name, "");
    assert_eq!(tools[1].description, "nameless");
    assert_eq!(tools[1].input_schema.properties, "{}");
    // no tool at all without a tools array
    assert!(decode_tools(b"not json").is_empty());
}

#[test]
fn test_decode_tool_result_blocks() {
    let result = "{\"content\":[{\"type\":\"text\",\"text\":\"hello\"},{\"type\":\"image\",\"data\":\"abc\",\"mime_type\":\"image/png\"}],\"isError\":false}";
    let decoded = decode_tool_result(result.as_bytes()).unwrap();
    assert_eq!(decoded.content.len(), 2);
    assert!(!decoded.is_error);
    match &decoded.content[0] {
        McpContent::Text { text } => assert_eq!(text, "hello"),
        _ => panic!("expected text"),
    }
    // a payload without the expected shape is no structured result
    assert!(decode_tool_result(b"null").is_none());
    assert!(decode_tool_result(b"not json").is_none());
}

#[test]
fn test_tool_result_text_joins_blocks() {
    let result = McpToolResult {
        content: vec![
            McpContent::Text { text: "line one".to_string() },
            McpContent::Image { data: "x".to_string(), mime_type: "image/png".to_string() },
            McpContent::Text { text: "line two".to_string() },
        ],
        is_error: false,
    };
    assert_eq!(tool_result_text(&result), "line one\nline two");
}

#[test]
fn test_tool_result_text_error_flag() {
    let result = McpToolResult {
        content: vec![McpContent::Text { text: "boom".to_string() }],
        is_error: true,
    };
    assert_eq!(tool_result_text(&result), "工具调用错误: boom");
}
