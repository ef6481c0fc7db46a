use mcp_cli::session::{build_launch_plan, read_call_response, read_plain_response, SessionCore,
    ServerProfile, SessionError};
use mcp_cli::wire::parse_ipc_request;
use mcp_cli::wire::IpcRequest;
use mcp_cli::dispatch::respond_line;
use mcp_cli::wire::parse_ipc_response;

#[test]
fn request_ids_start_at_one_and_never_repeat() {
    let mut core = SessionCore::new();
    let a = core.fresh_id();
    let b = core.fresh_id();
    let c = core.fresh_id();
    assert_eq!(a, 1);
    assert_eq!(b, 2);
    assert_eq!(c, 3);
    assert!(a != b && b != c && a != c);
}

#[test]
fn handshake_lines_are_exact() {
    let mut core = SessionCore::new();
    let init = core.initialize_request();
    assert_eq!(
        init,
        "{\"jsonrpc\":\"2.0\",\"id\":1,\"method\":\"initialize\",\"params\":{\"protocolVersion\":\"2025-06-18\",\"capabilities\":{},\"clientInfo\":{\"name\":\"mcp-cli\",\"version\":\"1.0.0\"}}}"
    );
    let note = core.initialized_notification();
    assert_eq!(
        note,
        "{\"jsonrpc\":\"2.0\",\"method\":\"notifications/initialized\",\"params\":{}}"
    );
}

#[test]
fn call_and_list_requests_use_successive_ids() {
    let mut core = SessionCore::new();
    let _ = core.initialize_request();
    let call = core.call_tool_request("chat", "{\"q\":\"hi\"}");
    assert_eq!(
        call,
        "{\"jsonrpc\":\"2.0\",\"id\":2,\"method\":\"tools/call\",\"params\":{\"name\":\"chat\",\"arguments\":{\"q\":\"hi\"}}}"
    );
    let list = core.list_tools_request();
    assert_eq!(
        list,
        "{\"jsonrpc\":\"2.0\",\"id\":3,\"method\":\"tools/list\",\"params\":{}}"
    );
}

#[test]
fn tool_error_with_text_reports_that_text() {
    let line = "{\"jsonrpc\":\"2.0\",\"id\":1,\"result\":{\"isError\":true,\"content\":[{\"text\":\"boom\"}]}}";
    match read_call_response(line) {
        Err(SessionError::Tool(m)) => {
            assert_eq!(m, "boom");
        },
        _ => panic!("expected a tool error"),
    }
}

#[test]
fn tool_error_without_content_reports_the_fallback() {
    let line = "{\"jsonrpc\":\"2.0\",\"id\":1,\"result\":{\"isError\":true}}";
    match read_call_response(line) {
        Err(SessionError::Tool(m)) => assert_eq!(m, "Tool execution failed"),
        _ => panic!("expected a tool error"),
    }
}

#[test]
fn is_error_false_or_absent_is_not_a_failure() {
    let ok_false =
        "{\"jsonrpc\":\"2.0\",\"id\":1,\"result\":{\"isError\":false,\"content\":[{\"text\":\"x\"}]}}";
    assert!(read_call_response(ok_false).is_ok());
    let ok_absent = "{\"jsonrpc\":\"2.0\",\"id\":1,\"result\":{\"content\":[]}}";
    assert!(read_call_response(ok_absent).is_ok());
}

#[test]
fn protocol_error_field_wins_over_everything() {
    let line = "{\"jsonrpc\":\"2.0\",\"id\":1,\"error\":{\"message\":\"engine broke\"}}";
    match read_call_response(line) {
        Err(SessionError::Protocol(m)) => assert!(m.contains("engine broke")),
        _ => panic!("expected a protocol error"),
    }
    let msg = match read_call_response(line) {
        Err(e) => e.message(),
        Ok(_) => panic!(),
    };
    assert!(msg.starts_with("MCP Error: "));
}

#[test]
fn unparsable_reply_is_a_protocol_error() {
    match read_call_response("garbage") {
        Err(SessionError::Protocol(m)) => {
            assert_eq!(m, "Failed to parse JSON-RPC response")
        },
        _ => panic!("expected a protocol error"),
    }
}

#[test]
fn plain_reply_hands_the_result_through_unchanged() {
    let line = "{\"jsonrpc\":\"2.0\",\"id\":1,\"result\":{\"tools\":[{\"name\":\"chat\"}]}}";
    let r = read_plain_response(line).unwrap();
    let v: serde_json::Value = serde_json::from_str(&r).unwrap();
    assert_eq!(v["tools"][0]["name"], serde_json::Value::String("chat".to_string()));
}

#[test]
fn daemon_proxied_response_equals_the_direct_result() {
    // The direct path hands the engine's raw result text to the caller. The
    // daemon path wraps the same text in a success envelope and the IPC
    // client unwraps it: the caller sees the identical text.
    let direct_result = "{\"content\":[{\"text\":\"42\"}]}";
    let mut core = SessionCore::new();
    let request = core.call_tool_request("calc", "{\"n\":42}");
    let served = match parse_ipc_request(&request) {
        Ok(IpcRequest::Call { id, .. }) => respond_line(id, &Ok(direct_result.to_string())),
        _ => panic!("the daemon must recognize its own client's request"),
    };
    let proxied = parse_ipc_response(&served).unwrap();
    assert_eq!(proxied, direct_result);
}

fn profile(command: Vec<&str>, default_args: Vec<&str>) -> ServerProfile {
    ServerProfile {
        command: command.into_iter().map(|s| s.to_string()).collect(),
        default_args: default_args.into_iter().map(|s| s.to_string()).collect(),
        supports_daemon: true,
        description: String::new(),
        env: Vec::new(),
    }
}

#[test]
fn empty_command_cannot_be_launched() {
    let p = profile(vec![], vec![]);
    match build_launch_plan(&p, &None, "s", "1", "/w") {
        Err(SessionError::Spawn(m)) => assert_eq!(m, "Server profile has empty command"),
        _ => panic!("expected a spawn error"),
    }
}

#[test]
fn launch_plan_uses_defaults_and_expands_them() {
    let p = profile(vec!["npx", "@playwright/mcp@latest"], vec!["--headless", "--dir={profile_dir}"]);
    let plan = build_launch_plan(&p, &None, "play", "7", "/w").unwrap();
    assert_eq!(plan.program, "npx");
    assert_eq!(
        plan.args,
        vec!["@playwright/mcp@latest", "--headless", "--dir=.mcp-profile/play"]
    );
}

#[test]
fn launch_plan_override_replaces_defaults_even_when_empty() {
    let p = profile(vec!["engine"], vec!["--headless"]);
    let plan = build_launch_plan(&p, &Some(vec!["--gui".to_string()]), "s", "1", "/w").unwrap();
    assert_eq!(plan.args, vec!["--gui"]);
    let plan2 = build_launch_plan(&p, &Some(vec![]), "s", "1", "/w").unwrap();
    assert!(plan2.args.is_empty());
}

#[test]
fn surrounding_whitespace_does_not_confuse_the_reply_reader() {
    let line = "  {\"jsonrpc\":\"2.0\",\"id\":1,\"result\":{\"ok\":true}} \r\n";
    let r = read_call_response(line).unwrap();
    assert_eq!(r, "{\"ok\":true}");
}
