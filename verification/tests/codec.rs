use mcp_cli::envelope::{build_call_params, build_error_response, build_request_line,
    build_success_response};
use mcp_cli::num::u64_to_dec_string;
use mcp_cli::wire::{parse_ipc_request, parse_ipc_response, IpcFault, IpcRequest};

#[test]
fn decimal_rendering_is_exact() {
    assert_eq!(u64_to_dec_string(0), "0");
    assert_eq!(u64_to_dec_string(42), "42");
    assert_eq!(u64_to_dec_string(u64::MAX), "18446744073709551615");
}

#[test]
fn success_response_round_trips_through_the_socket_codec() {
    let line = build_success_response(1, "{\"ok\":true,\"n\":[1,2]}");
    assert_eq!(
        line,
        "{\"jsonrpc\":\"2.0\",\"id\":1,\"result\":{\"ok\":true,\"n\":[1,2]}}"
    );
    let back = parse_ipc_response(&line);
    assert_eq!(back.unwrap(), "{\"ok\":true,\"n\":[1,2]}");
}

#[test]
fn error_response_round_trips_with_escaping() {
    let line = build_error_response(7, "boom \"quoted\" and \\slash");
    let back = parse_ipc_response(&line);
    match back {
        Err(IpcFault::Daemon(m)) => assert_eq!(m, "boom \"quoted\" and \\slash"),
        other => panic!("expected a daemon error, got {:?}", fault_kind(&other)),
    }
}

#[test]
fn garbage_is_reported_malformed_not_misread() {
    assert!(matches!(parse_ipc_response("not json"), Err(IpcFault::Malformed)));
    assert!(matches!(parse_ipc_response(""), Err(IpcFault::Malformed)));
    assert!(matches!(
        parse_ipc_response("{\"jsonrpc\":\"2.0\",\"id\":x}"),
        Err(IpcFault::Malformed)
    ));
}

#[test]
fn call_request_round_trips_through_the_socket_codec() {
    let params = build_call_params("browser_navigate", "{\"url\":\"https://example.com\"}");
    let line = build_request_line(1, "tools/call", &params);
    match parse_ipc_request(&line) {
        Ok(IpcRequest::Call { id, tool, args }) => {
            assert_eq!(id, 1);
            assert_eq!(tool, "browser_navigate");
            assert_eq!(args, "{\"url\":\"https://example.com\"}");
        },
        _ => panic!("expected a call request"),
    }
}

#[test]
fn call_request_round_trips_with_escaped_tool_name() {
    let params = build_call_params("we\"ird\\tool", "{}");
    let line = build_request_line(3, "tools/call", &params);
    match parse_ipc_request(&line) {
        Ok(IpcRequest::Call { id, tool, args }) => {
            assert_eq!(id, 3);
            assert_eq!(tool, "we\"ird\\tool");
            assert_eq!(args, "{}");
        },
        _ => panic!("expected a call request"),
    }
}

#[test]
fn list_request_round_trips_through_the_socket_codec() {
    let line = build_request_line(9, "tools/list", "{}");
    match parse_ipc_request(&line) {
        Ok(IpcRequest::List { id }) => assert_eq!(id, 9),
        _ => panic!("expected a list request"),
    }
}

#[test]
fn unknown_method_is_reported_under_its_name_and_id() {
    let line = build_request_line(7, "bogus/method", "{}");
    match parse_ipc_request(&line) {
        Err(IpcFault::UnknownMethod { id, method }) => {
            assert_eq!(id, 7);
            assert_eq!(method, "bogus/method");
        },
        _ => panic!("expected an unknown-method fault"),
    }
}

#[test]
fn a_method_extending_a_served_name_is_still_unknown() {
    let line = build_request_line(2, "tools/callable", "{}");
    match parse_ipc_request(&line) {
        Err(IpcFault::UnknownMethod { id, method }) => {
            assert_eq!(id, 2);
            assert_eq!(method, "tools/callable");
        },
        _ => panic!("expected an unknown-method fault"),
    }
    let line = build_request_line(3, "tools/lists", "{}");
    assert!(matches!(
        parse_ipc_request(&line),
        Err(IpcFault::UnknownMethod { id: 3, .. })
    ));
}

#[test]
fn malformed_request_is_dropped_not_guessed() {
    assert!(matches!(parse_ipc_request("hello"), Err(IpcFault::Malformed)));
    assert!(matches!(
        parse_ipc_request("{\"jsonrpc\":\"2.0\",\"id\":1,\"method\":\"tools/call\"}"),
        Err(IpcFault::Malformed)
    ));
}

fn fault_kind(r: &Result<String, IpcFault>) -> &'static str {
    match r {
        Ok(_) => "ok",
        Err(IpcFault::Malformed) => "malformed",
        Err(IpcFault::UnknownMethod { .. }) => "unknown method",
        Err(IpcFault::Daemon(_)) => "daemon error",
        Err(IpcFault::Transport(_)) => "transport failure",
    }
}
