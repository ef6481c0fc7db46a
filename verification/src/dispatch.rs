//! The dispatch orchestrator and the daemon-side connection decisions. The
//! orchestrator routes one call through the daemon's socket only when the
//! profile allows persistent mode and a daemon is live, and treats every
//! socket-path failure as recoverable: it warns and retries over a fresh
//! direct session, never failing the caller on the daemon's account. The
//! daemon answers every parsed request with exactly one envelope and drops
//! only connections whose request could not be read at all.

use vstd::prelude::*;
use crate::daemon::MAX_REQUEST_SIZE;
use crate::envelope::{build_error_response, build_success_response, error_line_spec,
    success_line_spec};
use crate::session::{SessionError, session_error_text};
use crate::wire::{IpcFault, IpcRequest};

verus! {

/// Where the orchestrator sends one call.
#[derive(Debug)]
pub enum Route {
    /// Through the IPC client to the live daemon.
    ViaDaemon,
    /// Over a freshly spawned, freshly handshaked session.
    Direct,
}

/// The routing rule: the daemon path is taken exactly when the profile
/// allows persistent mode and the liveness probe reports a daemon.
pub fn choose_route(supports_daemon: bool, daemon_running: bool) -> (r: Route)
    ensures
        r is ViaDaemon <==> (supports_daemon && daemon_running),
{
    if supports_daemon && daemon_running {
        Route::ViaDaemon
    } else {
        Route::Direct
    }
}

/// The text of a socket-transport fault, as the warning and the daemon's
/// log print it.
pub open spec fn ipc_fault_text(f: IpcFault) -> Seq<char> {
    match f {
        IpcFault::Malformed => "Invalid JSON-RPC response"@,
        IpcFault::UnknownMethod { id: _, method } => "Unknown method: "@ + method@,
        IpcFault::Daemon(m) => "Daemon error: "@ + m@,
        IpcFault::Transport(m) => "Daemon transport failed: "@ + m@,
    }
}

impl IpcFault {
    /// The human-readable description of the fault.
    pub fn message(&self) -> (r: String)
        ensures
            r@ == ipc_fault_text(*self),
    {
        let mut out = String::new();
        match self {
            IpcFault::Malformed => {
                out.append("Invalid JSON-RPC response");
            },
            IpcFault::UnknownMethod { id: _, method } => {
                out.append("Unknown method: ");
                out.append(method.as_str());
            },
            IpcFault::Daemon(m) => {
                out.append("Daemon error: ");
                out.append(m.as_str());
            },
            IpcFault::Transport(m) => {
                out.append("Daemon transport failed: ");
                out.append(m.as_str());
            },
        }
        out
    }
}

/// The warning the orchestrator emits when it falls back from the daemon to
/// a fresh direct session.
pub fn fallback_warning(fault: &IpcFault) -> (r: String)
    ensures
        r@ == "Daemon call failed, falling back to STDIO: "@ + ipc_fault_text(*fault),
{
    let mut out = String::new();
    out.append("Daemon call failed, falling back to STDIO: ");
    let m = fault.message();
    out.append(m.as_str());
    out
}

/// How one dispatched call ended.
#[derive(Debug)]
pub enum CallOutcome {
    /// The daemon answered with a result.
    Done(String),
    /// The daemon path failed; the fresh session answered. The warning is
    /// carried along, because the fallback is recoverable, not an error.
    DoneAfterFallback(String, String),
    /// The call failed outright on the direct path.
    Failed(SessionError),
    /// The daemon path failed and the fresh session failed too; the direct
    /// error is final and the warning is still only a warning.
    FailedAfterFallback(SessionError, String),
}

/// The orchestrator's whole decision over the summaries of both attempts:
/// when the daemon path was not taken or did not answer successfully, the
/// direct attempt decides the outcome, and a daemon fault only ever adds a
/// warning. A result the daemon produced is passed through unchanged.
pub fn resolve_call(
    daemon_reply: &Option<Result<String, IpcFault>>,
    direct_reply: &Option<Result<String, SessionError>>,
) -> (r: CallOutcome)
    ensures
        resolve_call_spec(*daemon_reply, *direct_reply, r),
        daemon_reply matches Some(Ok(text)) ==> (r matches CallOutcome::Done(t) && t@ == text@),
        daemon_reply matches Some(Err(fault)) ==> (direct_reply matches Some(Ok(text)) ==> (
        r matches CallOutcome::DoneAfterFallback(t, w) && t@ == text@ && w@
            == "Daemon call failed, falling back to STDIO: "@ + ipc_fault_text(*fault))),
        daemon_reply matches Some(Err(fault)) ==> (direct_reply matches Some(Err(e)) ==> (r matches
            CallOutcome::FailedAfterFallback(fe, w) && fe == e && w@
            == "Daemon call failed, falling back to STDIO: "@ + ipc_fault_text(*fault))),
        daemon_reply matches None ==> (direct_reply matches Some(Ok(text)) ==> (r matches
            CallOutcome::Done(t) && t@ == text@)),
        daemon_reply matches None ==> (direct_reply matches Some(Err(e)) ==> (r matches
            CallOutcome::Failed(fe) && fe == e)),
{
    match daemon_reply {
        Some(inner) => {
            match inner {
                Ok(text) => CallOutcome::Done(text.clone()),
                Err(fault) => {
                    let warning = fallback_warning(fault);
                    match direct_reply {
                        Some(sr) => {
                            match sr {
                                Ok(text) => CallOutcome::DoneAfterFallback(text.clone(), warning),
                                Err(e) => CallOutcome::FailedAfterFallback(
                                    clone_session_error(e),
                                    warning,
                                ),
                            }
                        },
                        None => CallOutcome::FailedAfterFallback(
                            SessionError::Protocol(
                                String::from_str("no direct attempt was made"),
                            ),
                            warning,
                        ),
                    }
                },
            }
        },
        None => {
            match direct_reply {
                Some(sr) => {
                    match sr {
                        Ok(text) => CallOutcome::Done(text.clone()),
                        Err(e) => CallOutcome::Failed(clone_session_error(e)),
                    }
                },
                None => CallOutcome::Failed(
                    SessionError::Protocol(String::from_str("no direct attempt was made")),
                ),
            }
        },
    }
}

/// Copy a session error.
pub fn clone_session_error(e: &SessionError) -> (r: SessionError)
    ensures
        r == *e,
{
    match e {
        SessionError::Spawn(m) => SessionError::Spawn(m.clone()),
        SessionError::Protocol(m) => SessionError::Protocol(m.clone()),
        SessionError::Tool(m) => SessionError::Tool(m.clone()),
    }
}

/// Law: a daemon-side fault never becomes the caller's error when the
/// fresh session succeeds: the outcome carries the result and a warning.
pub proof fn lemma_fallback_is_recoverable(
    fault: IpcFault,
    daemon_reply: Option<Result<String, IpcFault>>,
    direct_reply: Option<Result<String, SessionError>>,
)
    requires
        daemon_reply == Some(Err::<String, IpcFault>(fault)),
        direct_reply matches Some(sr) && sr is Ok,
    ensures
        forall|r: CallOutcome|
            resolve_call_spec(daemon_reply, direct_reply, r) ==> !(r is Failed)
                && !(r is FailedAfterFallback),
{
}

/// The part of `resolve_call`'s contract that the recoverability law rests
/// on: a daemon result passes through, and a daemon fault with a successful
/// direct attempt ends in a fallback success. The full clauses stand on
/// `resolve_call` itself.
pub open spec fn resolve_call_spec(
    daemon_reply: Option<Result<String, IpcFault>>,
    direct_reply: Option<Result<String, SessionError>>,
    r: CallOutcome,
) -> bool {
    &&& (daemon_reply matches Some(Ok(text)) ==> (r matches CallOutcome::Done(t) && t@ == text@))
    &&& (daemon_reply matches Some(Err(fault)) ==> (direct_reply matches Some(Ok(text)) ==> (
    r matches CallOutcome::DoneAfterFallback(t, w) && t@ == text@)))
}

/// What the daemon does with one connection after reading its request line.
#[derive(Debug)]
pub enum ServerStep {
    /// Hand the tool call to the owned session, then answer with one
    /// envelope.
    CallTool { id: u64, tool: String, args: String },
    /// Hand the list request to the session, then answer with one envelope.
    ListTools { id: u64 },
    /// Answer immediately with an error envelope naming the method.
    RejectUnknown { line: String },
    /// The request could not be read as an envelope at all: drop the
    /// connection and log; a bad client never stops the accept loop.
    Drop { log: String },
}

/// Decide one connection from the parsed request. A recognized method is
/// dispatched; an unrecognized one is answered in place with an error
/// envelope that names it, under the request's own id; a malformed line
/// only drops this one connection.
pub fn server_step(parsed: Result<IpcRequest, IpcFault>) -> (s: ServerStep)
    ensures
        parsed matches Ok(IpcRequest::Call { id, tool, args }) ==> (s matches
            ServerStep::CallTool { id: sid, tool: st, args: sa } && sid == id && st@ == tool@ && sa@
            == args@),
        parsed matches Ok(IpcRequest::List { id }) ==> (s matches ServerStep::ListTools {
            id: sid,
        } && sid == id),
        parsed matches Err(IpcFault::UnknownMethod { id, method }) ==> (s matches
            ServerStep::RejectUnknown { line } && line@ == error_line_spec(
            id as nat,
            "Unknown method: "@ + method@,
        )),
        parsed matches Err(IpcFault::Malformed) ==> (s matches ServerStep::Drop { log } && log@
            == "Invalid JSON-RPC request"@),
        parsed matches Err(IpcFault::Daemon(_)) ==> s is Drop,
        parsed matches Err(IpcFault::Transport(_)) ==> s is Drop,
{
    match parsed {
        Ok(IpcRequest::Call { id, tool, args }) => ServerStep::CallTool { id, tool, args },
        Ok(IpcRequest::List { id }) => ServerStep::ListTools { id },
        Err(IpcFault::UnknownMethod { id, method }) => {
            let mut text = String::new();
            text.append("Unknown method: ");
            text.append(method.as_str());
            ServerStep::RejectUnknown { line: build_error_response(id, text.as_str()) }
        },
        Err(IpcFault::Malformed) => ServerStep::Drop {
            log: String::from_str("Invalid JSON-RPC request"),
        },
        Err(fault) => ServerStep::Drop { log: fault.message() },
    }
}

/// The one response envelope a served request gets: the session's result is
/// wrapped unchanged in a success envelope under the request's own id (so it
/// must hold no line break); a session failure becomes a well-formed error
/// envelope carrying the failure's message, so a broken call never crashes
/// the accept loop.
pub fn respond_line(id: u64, outcome: &Result<String, SessionError>) -> (line: String)
    requires
        outcome matches Ok(result) ==> crate::envelope::line_safe(result@),
    ensures
        match outcome {
            Ok(result) => line@ == success_line_spec(id as nat, result@),
            Err(e) => line@ == error_line_spec(id as nat, session_error_text(*e)),
        },
{
    match outcome {
        Ok(result) => build_success_response(id, result.as_str()),
        Err(e) => {
            let m = e.message();
            build_error_response(id, m.as_str())
        },
    }
}

/// The oversize guard on one socket request: a line above the fixed bound
/// is rejected before any parsing.
pub fn request_too_large(len: usize) -> (b: bool)
    ensures
        b == (len > MAX_REQUEST_SIZE),
{
    len > MAX_REQUEST_SIZE
}

} // verus!
