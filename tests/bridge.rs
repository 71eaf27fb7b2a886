use agentx_bridge::decorator::CallAccumulator;
use agentx_bridge::error::BridgeError;
use agentx_bridge::json::JsonValue;
use agentx_bridge::manager::MCPManager;
use agentx_bridge::rpc::{classify_line, ConnectionState, Incoming, Routed, RpcClient, WaitEvent};
use agentx_bridge::stream::{normalize_lines, uses_bracket_tags, BracketStream, WireFormat};
use agentx_bridge::tags::{parse_deepseek_tool_calls, ToolTagFilter};
use agentx_bridge::tools::{
    MCPServerConfig,
    flatten_tool_result, tool_call_from_function_call, tool_result_from_json, tools_from_list_result,
    MCPContent, MCPTool, MCPToolResult,
};
use agentx_bridge::providers::FunctionCall;
use agentx_bridge::sse::{anthropic_line, openai_line};

fn decode(text: &str) -> JsonValue {
    let v: serde_json::Value = serde_json::from_str(text).unwrap();
    convert(&v)
}

fn convert(v: &serde_json::Value) -> JsonValue {
    match v {
        serde_json::Value::Null => JsonValue::Null,
        serde_json::Value::Bool(b) => JsonValue::Bool(*b),
        serde_json::Value::Number(n) => JsonValue::Number(match (n.as_u64(), n.as_i64()) {
            (Some(u), _) => agentx_bridge::json::JsonNumber::PosInt(u),
            (None, Some(i)) => agentx_bridge::json::JsonNumber::NegInt(i),
            (None, None) => agentx_bridge::json::JsonNumber::Float(n.clone()),
        }),
        serde_json::Value::String(s) => JsonValue::Str(s.clone()),
        serde_json::Value::Array(a) => JsonValue::Array(a.iter().map(convert).collect()),
        serde_json::Value::Object(m) => {
            JsonValue::Object(m.iter().map(|(k, x)| (k.clone(), convert(x))).collect())
        }
    }
}

fn tool(name: &str) -> MCPTool {
    MCPTool {
        name: name.to_string(),
        description: format!("{} tool", name),
        input_schema: decode("{\"type\":\"object\"}"),
    }
}

#[test]
fn test_parse_deepseek_tool_calls() {
    let content = r#"Let me check that for you.
[TOOL_REQUEST]
{"name": "get_current_time", "arguments": {}}
[END_TOOL_REQUEST]"#;

    let calls = parse_deepseek_tool_calls(content).unwrap();
    assert_eq!(calls.len(), 1);
    assert_eq!(calls[0].name, "get_current_time");
    assert_eq!(calls[0].arguments, "{}");
}

#[test]
fn openai_stream_ends_once_with_stop() {
    let lines: Vec<String> = vec![
        "data: {\"choices\":[{\"delta\":{\"content\":\"Hel\"}}]}".to_string(),
        "data: {\"choices\":[{\"delta\":{\"content\":\"lo\"}}]}".to_string(),
        "data: [DONE]".to_string(),
        "data: {\"choices\":[{\"delta\":{\"content\":\"late\"}}]}".to_string(),
    ];
    let chunks = normalize_lines(WireFormat::OpenAi, &lines);
    assert_eq!(chunks.len(), 3);
    let text: String = chunks.iter().map(|c| c.delta.clone()).collect();
    assert_eq!(text, "Hello");
    assert!(chunks[0].finish_reason.is_none());
    assert!(chunks[1].finish_reason.is_none());
    assert_eq!(chunks[2].finish_reason.as_deref(), Some("stop"));
}

#[test]
fn openai_malformed_frame_is_a_no_op() {
    let c = openai_line("data: {not json");
    assert_eq!(c.delta, "");
    assert!(c.finish_reason.is_none());
    assert!(c.function_call_delta.is_none());
    let c = openai_line(": keep-alive");
    assert_eq!(c.delta, "");
}

#[test]
fn openai_function_call_fragment_and_finish_reason() {
    let c = openai_line(
        "data: {\"choices\":[{\"delta\":{\"function_call\":{\"name\":\"get_weather\",\"arguments\":\"{\\\"lo\"}},\"finish_reason\":\"length\"}]}",
    );
    let d = c.function_call_delta.unwrap();
    assert_eq!(d.name.as_deref(), Some("get_weather"));
    assert_eq!(d.arguments.as_deref(), Some("{\"lo"));
    assert_eq!(c.finish_reason.as_deref(), Some("length"));
}

#[test]
fn anthropic_events() {
    let c = anthropic_line("data: {\"type\":\"content_block_delta\",\"index\":0,\"delta\":{\"type\":\"text_delta\",\"text\":\"Hi\"}}");
    assert_eq!(c.delta, "Hi");
    assert!(c.finish_reason.is_none());
    let c = anthropic_line("data: {\"type\":\"message_start\",\"message\":{}}");
    assert_eq!(c.delta, "");
    assert!(c.finish_reason.is_none());
    let c = anthropic_line("data: {\"type\":\"message_stop\"}");
    assert_eq!(c.finish_reason.as_deref(), Some("stop"));
}

#[test]
fn tag_region_split_in_four_chunks_matches_one_chunk() {
    let whole = "Sure. [TOOL_REQUEST]{\"name\":\"get_weather\",\"arguments\":{\"location\":\"Paris\"}}[END_TOOL_REQUEST] Done.";
    let mut one = ToolTagFilter::new();
    let (v1, c1) = one.push(whole);
    let mut split = ToolTagFilter::new();
    let mut visible = String::new();
    let mut calls = Vec::new();
    for piece in ["Sure. [TOOL_", "REQUEST]{\"name\":\"get_weather\",\"argu", "ments\":{\"location\":\"Paris\"}}[END_TOO", "L_REQUEST] Done."] {
        let (v, c) = split.push(piece);
        visible.push_str(&v);
        calls.extend(c);
    }
    assert_eq!(visible, v1);
    assert_eq!(visible, "Sure.  Done.");
    assert!(!visible.contains("[TOOL_REQUEST]"));
    assert!(!visible.contains("[END_TOOL_REQUEST]"));
    assert_eq!(calls.len(), 1);
    assert_eq!(c1.len(), 1);
    assert_eq!(calls[0].name, "get_weather");
    assert_eq!(calls[0].arguments, "{\"location\":\"Paris\"}");
    assert_eq!(calls[0].arguments, c1[0].arguments);
}

#[test]
fn unclosed_tag_region_is_dropped() {
    let mut f = ToolTagFilter::new();
    let (v, c) = f.push("Hello [TOOL_REQUEST]{\"name\":");
    assert_eq!(v, "Hello ");
    assert!(c.is_empty());
    assert_eq!(f.finish(), "");
    let mut g = ToolTagFilter::new();
    let (v, _) = g.push("a [TOOL_RE");
    assert_eq!(v, "a ");
    assert_eq!(g.finish(), "[TOOL_RE");
}

#[test]
fn request_ids_are_distinct_and_replies_route_by_id() {
    let mut client = RpcClient::new();
    assert!(client.begin_connect());
    assert!(client.on_spawned(None).is_ok());
    let mut ids = Vec::new();
    for _ in 0..50 {
        let (id, line) = client
            .begin_request("tools/list", JsonValue::Object(Vec::new()))
            .unwrap_or_else(|_| panic!("refused"));
        assert!(line.ends_with('\n'));
        ids.push(id);
    }
    let mut sorted = ids.clone();
    sorted.sort();
    sorted.dedup();
    assert_eq!(sorted.len(), 50);
    // Replies arrive in reverse order; each is stored for its own id.
    for id in ids.iter().rev() {
        let line = format!("{{\"jsonrpc\":\"2.0\",\"id\":{},\"result\":{{\"n\":{}}}}}", id, id);
        match client.route_line(&line) {
            Routed::Stored { id: got } => assert_eq!(got, *id),
            _ => panic!("reply not stored"),
        }
    }
    for id in ids.iter() {
        match client.take_reply(*id) {
            Some(Ok(JsonValue::Object(m))) => {
                assert_eq!(m[0].0, "n");
                match &m[0].1 {
                    JsonValue::Number(n) => assert_eq!(n.as_u64(), Some(*id)),
                    _ => panic!("wrong result"),
                }
            }
            _ => panic!("missing reply"),
        }
    }
    assert!(client.pending.is_empty());
}

#[test]
fn notifications_and_strays_are_skipped() {
    let mut client = RpcClient::new();
    client.begin_connect();
    let _ = client.on_spawned(None);
    let (id, _) = client.begin_request("initialize", JsonValue::Object(Vec::new())).ok().unwrap();
    assert!(matches!(
        client.route_line("{\"jsonrpc\":\"2.0\",\"method\":\"notifications/progress\",\"params\":{}}"),
        Routed::Skipped
    ));
    assert!(matches!(client.route_line("{\"jsonrpc\":\"2.0\",\"id\":99,\"result\":{}}"), Routed::Stray { id: 99 }));
    assert!(matches!(client.route_line("garbage"), Routed::Skipped));
    assert_eq!(client.pending, vec![id]);
}

#[test]
fn error_reply_becomes_rpc_error() {
    match classify_line("{\"jsonrpc\":\"2.0\",\"id\":3,\"error\":{\"code\":-32601,\"message\":\"no such method\"}}") {
        Incoming::Reply { id, outcome: Err(BridgeError::Rpc { code, message }) } => {
            assert_eq!(id, 3);
            assert_eq!(code, -32601);
            assert_eq!(message, "no such method");
        }
        _ => panic!("expected an error reply"),
    }
}

#[test]
fn exited_provider_fails_pending_requests() {
    let mut client = RpcClient::new();
    client.begin_connect();
    let _ = client.on_spawned(None);
    let (a, _) = client.begin_request("tools/list", JsonValue::Null).ok().unwrap();
    let (b, _) = client.begin_request("tools/call", JsonValue::Null).ok().unwrap();
    let failed = client.on_exit(Some(1));
    assert_eq!(failed.len(), 2);
    assert_eq!(failed[0].0, a);
    assert_eq!(failed[1].0, b);
    assert!(matches!(failed[0].1, BridgeError::ProcessExited(Some(1))));
    assert_eq!(client.state, ConnectionState::Disconnected);
    assert!(!client.begin_connect());
}

#[test]
fn timeout_keeps_process_running() {
    let mut client = RpcClient::new();
    client.begin_connect();
    let _ = client.on_spawned(None);
    assert!(client.on_initialized(true));
    let (a, _) = client.begin_request("tools/call", JsonValue::Null).ok().unwrap();
    assert!(matches!(client.on_timeout(a), BridgeError::RpcTimeout));
    assert_eq!(client.state, ConnectionState::Connected);
    assert!(client.begin_request("tools/list", JsonValue::Null).is_ok());
}

#[test]
fn spawned_process_that_exited_fails_connect() {
    let mut client = RpcClient::new();
    client.begin_connect();
    assert!(matches!(client.on_spawned(Some(2)), Err(BridgeError::ProcessExited(Some(2)))));
    assert_eq!(client.state, ConnectionState::Disconnected);
}

#[test]
fn failed_discovery_still_registers_provider() {
    let mut m = MCPManager::new();
    m.add_server("files".to_string(), &Err(BridgeError::RpcTimeout));
    let status = m.get_server_status();
    assert_eq!(status.len(), 1);
    assert_eq!(status[0].0, "files");
    assert!(status[0].1);
}

#[test]
fn get_weather_end_to_end() {
    let mut m = MCPManager::new();
    m.add_server("weather".to_string(), &Ok(vec![tool("get_weather")]));
    let call = FunctionCall { name: "get_weather".to_string(), arguments: "{\"location\":\"Paris\"}".to_string() };
    let owner = m.route_function_call(&call.name).ok().unwrap();
    assert_eq!(owner, "weather");
    let tc = tool_call_from_function_call(call);
    match &tc.arguments {
        JsonValue::Object(members) => {
            assert_eq!(members[0].0, "location");
            assert!(matches!(&members[0].1, JsonValue::Str(s) if s == "Paris"));
        }
        _ => panic!("arguments not an object"),
    }
    let result = tool_result_from_json(&decode("{\"content\":[{\"type\":\"text\",\"text\":\"Sunny, 21C\"}]}")).ok().unwrap();
    assert_eq!(flatten_tool_result(&result).ok().unwrap(), "Sunny, 21C");
    match m.route_function_call("get_time") {
        Err(BridgeError::UnknownTool(name)) => assert_eq!(name, "get_time"),
        _ => panic!("expected an unknown tool"),
    }
}

#[test]
fn function_routes_to_latest_advertiser_and_removal_unroutes() {
    let mut m = MCPManager::new();
    m.add_server("a".to_string(), &Ok(vec![tool("search"), tool("read")]));
    m.add_server("b".to_string(), &Ok(vec![tool("search")]));
    let fs = agentx_bridge::manager::functions_from_tools(vec![tool("search"), tool("read")]);
    assert_eq!(m.route_function_call(&fs[0].name).ok().unwrap(), "b");
    assert_eq!(m.route_function_call(&fs[1].name).ok().unwrap(), "a");
    assert!(m.remove_server("b"));
    assert!(!m.remove_server("b"));
    assert!(matches!(m.route_function_call("search"), Err(BridgeError::UnknownTool(_))));
    assert_eq!(m.route_function_call("read").ok().unwrap(), "a");
}

#[test]
fn tools_call_params_are_exactly_name_and_arguments() {
    let tc = tool_call_from_function_call(FunctionCall {
        name: "get_weather".to_string(),
        arguments: "{\"location\":\"Paris\"}".to_string(),
    });
    let p = agentx_bridge::tools::tool_call_params(tc);
    let text = agentx_bridge::json::JsonValue::Object(match p {
        JsonValue::Object(m) => m,
        _ => panic!("not an object"),
    });
    match &text {
        JsonValue::Object(m) => {
            assert_eq!(m.len(), 2);
            assert_eq!(m[0].0, "name");
            assert_eq!(m[1].0, "arguments");
        }
        _ => unreachable!(),
    }
}

#[test]
fn request_line_is_the_exact_envelope() {
    let mut client = RpcClient::new();
    client.begin_connect();
    let _ = client.on_spawned(None);
    let (_, _) = client.begin_request("initialize", JsonValue::Null).ok().unwrap();
    let (id, line) = client.begin_request("tools/list", JsonValue::Object(Vec::new())).ok().unwrap();
    assert_eq!(id, 1);
    assert!(line.ends_with('\n'));
    let sent: serde_json::Value = serde_json::from_str(line.trim_end()).unwrap();
    let want: serde_json::Value =
        serde_json::from_str("{\"jsonrpc\":\"2.0\",\"id\":1,\"method\":\"tools/list\",\"params\":{}}").unwrap();
    assert_eq!(sent, want);
    let note = client.notification_line("initialized", JsonValue::Object(Vec::new()));
    let sent: serde_json::Value = serde_json::from_str(note.trim_end()).unwrap();
    let want: serde_json::Value =
        serde_json::from_str("{\"jsonrpc\":\"2.0\",\"method\":\"initialized\",\"params\":{}}").unwrap();
    assert_eq!(sent, want);
}

#[test]
fn malformed_arguments_fall_back_to_empty_object() {
    let tc = tool_call_from_function_call(FunctionCall { name: "x".to_string(), arguments: "{oops".to_string() });
    assert!(matches!(tc.arguments, JsonValue::Object(ref m) if m.is_empty()));
}

#[test]
fn tools_list_skips_bad_descriptors() {
    let r = decode(
        "{\"tools\":[{\"name\":\"a\",\"description\":\"A\",\"inputSchema\":{}},{\"name\":\"b\"},{\"name\":\"c\",\"description\":\"C\",\"input_schema\":{}}]}",
    );
    let tools = tools_from_list_result(r).ok().unwrap();
    assert_eq!(tools.len(), 2);
    assert_eq!(tools[0].name, "a");
    assert_eq!(tools[1].name, "c");
    assert!(matches!(tools_from_list_result(decode("{\"tools\":3}")), Err(BridgeError::Protocol(_))));
}

#[test]
fn only_text_blocks_are_shown_and_errors_surface() {
    let result = MCPToolResult {
        content: vec![
            MCPContent::Text { text: "one".to_string() },
            MCPContent::Image { data: "AAAA".to_string(), mime_type: "image/png".to_string() },
            MCPContent::Text { text: "two".to_string() },
        ],
        is_error: None,
    };
    assert_eq!(flatten_tool_result(&result).ok().unwrap(), "one\ntwo");
    let failed = MCPToolResult { content: vec![MCPContent::Text { text: "boom".to_string() }], is_error: Some(true) };
    match flatten_tool_result(&failed) {
        Err(BridgeError::ToolExecution(t)) => assert_eq!(t, "boom"),
        _ => panic!("expected a tool execution error"),
    }
}

#[test]
fn accumulator_joins_argument_fragments_until_the_end() {
    let mut acc = CallAccumulator::new();
    for line in [
        "data: {\"choices\":[{\"delta\":{\"function_call\":{\"name\":\"get_weather\",\"arguments\":\"{\\\"loc\"}}}]}",
        "data: {\"choices\":[{\"delta\":{\"function_call\":{\"arguments\":\"ation\\\":\\\"Paris\\\"}\"}}}]}",
    ] {
        acc.absorb(&openai_line(line));
        assert!(acc.ready_call().is_none());
    }
    acc.absorb(&openai_line("data: [DONE]"));
    let call = acc.ready_call().unwrap();
    assert_eq!(call.name, "get_weather");
    assert_eq!(call.arguments, "{\"location\":\"Paris\"}");
}

#[test]
fn test_extract_content_without_tools() {
    let content = r#"<think>
Some thinking
</think>
Let me check that for you.
[TOOL_REQUEST]
{"name": "get_current_time", "arguments": {}}
[END_TOOL_REQUEST]"#;

    let clean = agentx_bridge::cleanup::extract_content_without_tools(content);
    assert_eq!(clean, "Let me check that for you.");
}

#[test]
fn think_block_without_closing_stays() {
    let clean = agentx_bridge::cleanup::extract_content_without_tools("  <think> unfinished  ");
    assert_eq!(clean, "<think> unfinished");
    assert_eq!(agentx_bridge::cleanup::strip_think_blocks("a<think>x</think>b<think>y</think>c"), "abc");
    assert_eq!(agentx_bridge::cleanup::trim_text("\t hi there \n"), "hi there");
}

fn test_server_config() -> MCPServerConfig {
    MCPServerConfig {
        name: "test-server".to_string(),
        command: "node".to_string(),
        args: vec!["mcp-server.js".to_string()],
        env: None,
        capabilities: vec!["sampling".to_string()],
    }
}

#[test]
fn mcp_test_mcp_config() {
    let config = test_server_config();
    assert_eq!(config.name, "test-server");
    let server = RpcClient::new();
    assert!(!server.is_available());
}

#[test]
fn server_test_mcp_config() {
    let config = test_server_config();
    assert_eq!(config.capabilities, vec!["sampling".to_string()]);
    let mut server = RpcClient::new();
    assert!(!server.is_available());
    server.begin_connect();
    let _ = server.on_spawned(None);
    server.on_initialized(true);
    assert!(server.is_available());
    assert!(server.disconnect());
    assert!(!server.is_available());
    assert!(!server.disconnect());
}

#[test]
fn waiting_ends_by_reply_timeout_or_exit() {
    let mut client = RpcClient::new();
    client.begin_connect();
    let _ = client.on_spawned(None);
    let (a, _) = client.begin_request("tools/list", JsonValue::Null).ok().unwrap();
    let (b, _) = client.begin_request("tools/list", JsonValue::Null).ok().unwrap();
    let note = WaitEvent::Line("{\"jsonrpc\":\"2.0\",\"method\":\"log\",\"params\":{}}".to_string());
    assert!(client.on_wait_event(a, note).is_none());
    let other = WaitEvent::Line(format!("{{\"jsonrpc\":\"2.0\",\"id\":{},\"result\":{{}}}}", b));
    assert!(client.on_wait_event(a, other).is_none());
    assert!(matches!(client.take_reply(b), Some(Ok(_))));
    assert!(matches!(client.on_wait_event(a, WaitEvent::TimedOut), Some(Err(BridgeError::RpcTimeout))));
    let (c, _) = client.begin_request("tools/call", JsonValue::Null).ok().unwrap();
    assert!(matches!(client.on_wait_event(c, WaitEvent::Closed(None)), Some(Err(BridgeError::ProcessExited(None)))));
    assert_eq!(client.state, ConnectionState::Disconnected);
}

#[test]
fn waiting_caller_gets_its_reply_or_rpc_error() {
    let mut client = RpcClient::new();
    client.begin_connect();
    let _ = client.on_spawned(None);
    let (a, _) = client.begin_request("tools/list", JsonValue::Null).ok().unwrap();
    let reply = WaitEvent::Line(format!("{{\"jsonrpc\":\"2.0\",\"id\":{},\"result\":{{\"tools\":[]}}}}", a));
    match client.on_wait_event(a, reply) {
        Some(Ok(JsonValue::Object(m))) => assert_eq!(m[0].0, "tools"),
        _ => panic!("expected the reply's result"),
    }
    let (b, _) = client.begin_request("tools/call", JsonValue::Null).ok().unwrap();
    let err = WaitEvent::Line(format!(
        "{{\"jsonrpc\":\"2.0\",\"id\":{},\"error\":{{\"code\":-32602,\"message\":\"bad params\"}}}}",
        b
    ));
    match client.on_wait_event(b, err) {
        Some(Err(BridgeError::Rpc { code, message })) => {
            assert_eq!(code, -32602);
            assert_eq!(message, "bad params");
        }
        _ => panic!("expected an rpc error"),
    }
    assert!(client.pending.is_empty());
}

#[test]
fn openai_stream_with_stop_frame_ends_once() {
    let lines: Vec<String> = vec![
        "data: {\"choices\":[{\"delta\":{\"content\":\"Hi\"}}]}".to_string(),
        "data: {\"choices\":[{\"delta\":{\"content\":\"!\"},\"finish_reason\":\"stop\"}]}".to_string(),
        "data: [DONE]".to_string(),
    ];
    let chunks = normalize_lines(WireFormat::OpenAi, &lines);
    assert_eq!(chunks.len(), 2);
    assert!(chunks[0].finish_reason.is_none());
    assert_eq!(chunks[1].finish_reason.as_deref(), Some("stop"));
    let text: String = chunks.iter().map(|c| c.delta.clone()).collect();
    assert_eq!(text, "Hi!");
}

#[test]
fn bracket_stream_hides_regions_split_across_frames() {
    assert!(uses_bracket_tags("deepseek-r1:7b"));
    assert!(!uses_bracket_tags("mistral"));
    let pieces = ["Let me check. [TOOL_", "REQUEST]{\"name\":\"get_time\",", "\"arguments\":{}}[END_TOOL_", "REQUEST] Done"];
    let mut s = BracketStream::new(WireFormat::OpenAi);
    let mut text = String::new();
    let mut call = None;
    for p in pieces.iter() {
        let v = serde_json::Value::String(p.to_string()).to_string();
        let line = format!("data: {{\"choices\":[{{\"delta\":{{\"content\":{}}}}}]}}", v);
        let c = s.push_line(&line).unwrap();
        text.push_str(&c.delta);
        if c.function_call_delta.is_some() {
            call = c.function_call_delta;
        }
    }
    let end = s.push_line("data: [DONE]").unwrap();
    text.push_str(&end.delta);
    assert_eq!(end.finish_reason.as_deref(), Some("stop"));
    assert_eq!(text, "Let me check.  Done");
    let call = call.unwrap();
    assert_eq!(call.name.as_deref(), Some("get_time"));
    assert_eq!(call.arguments.as_deref(), Some("{}"));
    assert!(s.push_line("data: {}").is_none());
}
