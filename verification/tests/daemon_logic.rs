use mcp_cli::daemon::{alive_from_probe, parse_pid_file, pid_file_path, probe_process,
    socket_path, start_check, start_poll_step, status_decision, stop_poll_step, DaemonError,
    ProbeOutcome, StartPoll, StatusAction, StopPoll};
use mcp_cli::daemon::status_report;
use mcp_cli::dispatch::{choose_route, fallback_warning, resolve_call, respond_line,
    request_too_large, server_step, CallOutcome, Route, ServerStep};
use mcp_cli::session::SessionError;
use mcp_cli::wire::{parse_ipc_request, parse_ipc_response, IpcFault};

#[test]
fn pid_file_parsing_accepts_decimal_text() {
    assert_eq!(parse_pid_file("1234").unwrap(), 1234);
    assert_eq!(parse_pid_file("1234\n").unwrap(), 1234);
    assert_eq!(parse_pid_file("  77\t").unwrap(), 77);
}

#[test]
fn unparsable_pid_is_an_error_never_not_running() {
    for bad in ["abc", "", "12x", "-5", "99999999999999999999"] {
        match parse_pid_file(bad) {
            Err(DaemonError::BadPidFile(m)) => assert_eq!(m, bad.trim()),
            _ => panic!("expected a bad-PID error for {:?}", bad),
        }
    }
}

#[test]
fn liveness_verdict_never_under_reports() {
    assert!(alive_from_probe(&ProbeOutcome::Exists));
    assert!(alive_from_probe(&ProbeOutcome::PermissionDenied));
    assert!(!alive_from_probe(&ProbeOutcome::NoProcess));
    assert!(!alive_from_probe(&ProbeOutcome::OtherError));
}

#[test]
fn probing_our_own_process_reports_it_alive() {
    let me = nix::unistd::getpid().as_raw();
    assert!(matches!(probe_process(me), ProbeOutcome::Exists));
}

#[test]
fn probing_a_nonexistent_process_reports_no_process() {
    // PID numbers near the typical kernel maximum are essentially never in
    // use on a quiet test machine.
    assert!(matches!(probe_process(0x3ffffff), ProbeOutcome::NoProcess));
}

#[test]
fn paths_are_derived_from_the_sanitized_identifier() {
    assert_eq!(pid_file_path("my server"), ".mcp-profile/myserver/daemon.pid");
    assert_eq!(socket_path("my server", 42), "/tmp/.mcp/myserver-42.sock");
    assert_eq!(socket_path("a", 1), "/tmp/.mcp/a-1.sock");
}

#[test]
fn start_is_refused_without_capability_or_with_a_live_daemon() {
    match start_check(false, false, "zen") {
        Err(e @ DaemonError::NotSupported(_)) => assert_eq!(
            e.message(),
            "Server 'zen' does not support daemon mode (supports_daemon: false)"
        ),
        _ => panic!("expected a not-supported error"),
    }
    match start_check(true, true, "play") {
        Err(e @ DaemonError::AlreadyRunning(_)) => {
            assert_eq!(e.message(), "Daemon already running for 'play'")
        },
        _ => panic!("expected an already-running error"),
    }
    assert!(start_check(true, false, "play").is_ok());
}

#[test]
fn readiness_poll_sees_the_socket_first() {
    assert!(matches!(start_poll_step(0, true, true), StartPoll::Ready));
    assert!(matches!(start_poll_step(20, true, false), StartPoll::Ready));
}

#[test]
fn readiness_poll_fails_fast_at_the_midpoint_when_the_daemon_died() {
    assert!(matches!(start_poll_step(20, false, false), StartPoll::Crashed));
    assert!(matches!(start_poll_step(20, false, true), StartPoll::Wait));
    assert!(matches!(start_poll_step(19, false, false), StartPoll::Wait));
}

#[test]
fn readiness_poll_times_out_at_the_bound() {
    assert!(matches!(start_poll_step(49, false, true), StartPoll::TimedOut));
    assert!(matches!(start_poll_step(48, false, true), StartPoll::Wait));
}

#[test]
fn stop_poll_escalates_to_a_forced_kill() {
    assert!(matches!(stop_poll_step(0, false), StopPoll::Stopped));
    assert!(matches!(stop_poll_step(0, true), StopPoll::Wait));
    assert!(matches!(stop_poll_step(8, true), StopPoll::Wait));
    assert!(matches!(stop_poll_step(9, true), StopPoll::ForceKill));
}

#[test]
fn status_never_cleans_a_live_daemon() {
    assert!(matches!(status_decision(true, true), StatusAction::ReportRunning));
    assert!(matches!(status_decision(true, false), StatusAction::ReportRunning));
}

#[test]
fn status_cleans_only_stale_state() {
    assert!(matches!(status_decision(false, true), StatusAction::CleanupStale));
    assert!(matches!(status_decision(false, false), StatusAction::ReportNotRunning));
}

#[test]
fn status_output_is_identical_without_a_state_change() {
    let live = Some(("42".to_string(), "/tmp/.mcp/s-42.sock".to_string()));
    let a = status_report("s", &live);
    let b = status_report("s", &live);
    assert_eq!(a, b);
    assert_eq!(
        a,
        "Server: s\nProfile: .mcp-profile/s\nDaemon is running\n  PID: 42\n  Socket: /tmp/.mcp/s-42.sock\n"
    );
    let down_twice = (status_report("s", &None), status_report("s", &None));
    assert_eq!(down_twice.0, down_twice.1);
    assert_eq!(down_twice.0, "Server: s\nProfile: .mcp-profile/s\nDaemon is not running\n");
}

#[test]
fn route_uses_the_daemon_only_when_capable_and_live() {
    assert!(matches!(choose_route(true, true), Route::ViaDaemon));
    assert!(matches!(choose_route(true, false), Route::Direct));
    assert!(matches!(choose_route(false, true), Route::Direct));
    assert!(matches!(choose_route(false, false), Route::Direct));
}

#[test]
fn a_daemon_fault_falls_back_with_a_warning_not_an_error() {
    let daemon: Option<Result<String, IpcFault>> = Some(Err(IpcFault::Malformed));
    let direct: Option<Result<String, SessionError>> = Some(Ok("{\"ok\":1}".to_string()));
    match resolve_call(&daemon, &direct) {
        CallOutcome::DoneAfterFallback(result, warning) => {
            assert_eq!(result, "{\"ok\":1}");
            assert!(warning.contains("falling back to STDIO"));
        },
        _ => panic!("a reachable direct session must rescue the call"),
    }
}

#[test]
fn a_daemon_result_is_passed_through_unchanged() {
    let daemon: Option<Result<String, IpcFault>> = Some(Ok("{\"x\":2}".to_string()));
    match resolve_call(&daemon, &None) {
        CallOutcome::Done(result) => assert_eq!(result, "{\"x\":2}"),
        _ => panic!("a daemon result must be final"),
    }
}

#[test]
fn the_direct_errors_after_fallback_are_final() {
    let daemon: Option<Result<String, IpcFault>> = Some(Err(IpcFault::Malformed));
    let direct: Option<Result<String, SessionError>> =
        Some(Err(SessionError::Tool("boom".to_string())));
    match resolve_call(&daemon, &direct) {
        CallOutcome::FailedAfterFallback(SessionError::Tool(m), _w) => assert_eq!(m, "boom"),
        _ => panic!("the retry's error must be reported"),
    }
}

#[test]
fn the_fallback_warning_names_the_fault() {
    let w = fallback_warning(&IpcFault::Daemon("socket gone".to_string()));
    assert_eq!(
        w,
        "Daemon call failed, falling back to STDIO: Daemon error: socket gone"
    );
}

#[test]
fn the_server_answers_unknown_methods_under_the_request_id() {
    let unknown = parse_ipc_request(
        "{\"jsonrpc\":\"2.0\",\"id\":7,\"method\":\"nope\",\"params\":{}}",
    );
    match server_step(unknown) {
        ServerStep::RejectUnknown { line } => {
            assert_eq!(
                line,
                "{\"jsonrpc\":\"2.0\",\"id\":7,\"error\":{\"message\":\"Unknown method: nope\"}}"
            );
            match parse_ipc_response(&line) {
                Err(IpcFault::Daemon(m)) => assert_eq!(m, "Unknown method: nope"),
                _ => panic!("the rejection must be a well-formed error envelope"),
            }
        },
        _ => panic!("an unknown method must be answered, not dropped"),
    }
    assert!(matches!(
        server_step(parse_ipc_request("junk")),
        ServerStep::Drop { .. }
    ));
}

#[test]
fn a_session_failure_becomes_a_well_formed_error_envelope() {
    let line = respond_line(1, &Err(SessionError::Tool("boom".to_string())));
    match parse_ipc_response(&line) {
        Err(IpcFault::Daemon(m)) => assert_eq!(m, "Tool Error: boom"),
        _ => panic!("expected a daemon-side error envelope"),
    }
}

#[test]
fn oversized_requests_are_rejected_before_parsing() {
    assert!(!request_too_large(1048576));
    assert!(request_too_large(1048577));
}

#[test]
fn lifecycle_error_messages_are_exact() {
    assert_eq!(
        DaemonError::NotRunning("zen".to_string()).message(),
        "Daemon not running for 'zen'"
    );
    assert_eq!(
        DaemonError::SignalFailed("SIGTERM".to_string()).message(),
        "Failed to send SIGTERM"
    );
    assert_eq!(
        mcp_cli::daemon::startup_crash_error("play").message(),
        "Daemon process exited unexpectedly. Check .mcp-profile/play/daemon.log"
    );
    assert_eq!(
        mcp_cli::daemon::startup_timeout_error("play").message(),
        "Daemon failed to start - socket file not created within 5 seconds. Check .mcp-profile/play/daemon.log"
    );
}

#[test]
fn socket_paths_of_different_engines_or_cycles_differ() {
    assert_ne!(socket_path("a-1", 2), socket_path("a", 12));
    assert_ne!(socket_path("a", 1), socket_path("a", 2));
    assert_ne!(socket_path("a", 7), socket_path("b", 7));
}

#[test]
fn control_characters_survive_the_error_envelope() {
    let line = mcp_cli::envelope::build_error_response(1, "line one\nline\ttwo");
    assert!(!line.contains('\n'));
    match parse_ipc_response(&line) {
        Err(IpcFault::Daemon(m)) => assert_eq!(m, "line one\nline\ttwo"),
        _ => panic!("expected the daemon error back"),
    }
}
