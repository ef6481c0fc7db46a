//! The daemon supervisor's decisions: liveness from a PID file and a
//! permission-aware process probe, the per-engine file paths, the readiness
//! poll with its fail-fast midpoint check, the graceful-then-forced stop
//! sequence, and the self-healing `status` that removes stale state but
//! never touches a live daemon's files.

use vstd::prelude::*;
use crate::num::{all_digits, dec_digits, is_digit, parse_digits, parse_u64_all, push_dec_digits};
use crate::template::profile_dir_spec;
use crate::text::{chars_to_string, push_all, sanitize_spec, sanitize_server_name, str_to_chars,
    trim_chars, trim_spec};

verus! {

/// How long the readiness poll runs, in ticks of the fixed interval.
pub const START_POLL_TICKS: usize = 50;

/// The tick at which the poll checks once whether the daemon crashed.
pub const START_LIVENESS_TICK: usize = 20;

/// How long the graceful-stop poll runs, in ticks.
pub const STOP_POLL_TICKS: usize = 10;

/// The largest request a daemon accepts on its socket, in bytes.
pub const MAX_REQUEST_SIZE: usize = 1048576;

/// A daemon-lifecycle failure.
#[derive(Debug)]
pub enum DaemonError {
    /// The profile forbids persistent mode.
    NotSupported(String),
    /// A liveness probe says the daemon is already up.
    AlreadyRunning(String),
    /// No live daemon to stop or query.
    NotRunning(String),
    /// The PID file exists but does not hold a decimal process id.
    BadPidFile(String),
    /// The daemon process died while the poll was waiting for its socket.
    StartupCrash(String),
    /// The socket never appeared within the poll's bound.
    StartupTimeout(String),
    /// A termination signal could not be delivered.
    SignalFailed(String),
}

/// The message text of each lifecycle failure.
pub open spec fn daemon_error_text(e: DaemonError) -> Seq<char> {
    match e {
        DaemonError::NotSupported(name) => "Server '"@ + name@
            + "' does not support daemon mode (supports_daemon: false)"@,
        DaemonError::AlreadyRunning(name) => "Daemon already running for '"@ + name@ + "'"@,
        DaemonError::NotRunning(name) => "Daemon not running for '"@ + name@ + "'"@,
        DaemonError::BadPidFile(text) => "Invalid PID in file: '"@ + text@ + "'"@,
        DaemonError::StartupCrash(dir) => "Daemon process exited unexpectedly. Check "@ + dir@
            + "/daemon.log"@,
        DaemonError::StartupTimeout(dir) =>
        "Daemon failed to start - socket file not created within 5 seconds. Check "@ + dir@
            + "/daemon.log"@,
        DaemonError::SignalFailed(which) => "Failed to send "@ + which@,
    }
}

impl DaemonError {
    /// The human-readable message, as the callers print it.
    pub fn message(&self) -> (r: String)
        ensures
            r@ == daemon_error_text(*self),
    {
        let mut out = String::new();
        match self {
            DaemonError::NotSupported(name) => {
                out.append("Server '");
                out.append(name.as_str());
                out.append("' does not support daemon mode (supports_daemon: false)");
            },
            DaemonError::AlreadyRunning(name) => {
                out.append("Daemon already running for '");
                out.append(name.as_str());
                out.append("'");
            },
            DaemonError::NotRunning(name) => {
                out.append("Daemon not running for '");
                out.append(name.as_str());
                out.append("'");
            },
            DaemonError::BadPidFile(text) => {
                out.append("Invalid PID in file: '");
                out.append(text.as_str());
                out.append("'");
            },
            DaemonError::StartupCrash(dir) => {
                out.append("Daemon process exited unexpectedly. Check ");
                out.append(dir.as_str());
                out.append("/daemon.log");
            },
            DaemonError::StartupTimeout(dir) => {
                out.append("Daemon failed to start - socket file not created within 5 seconds. Check ");
                out.append(dir.as_str());
                out.append("/daemon.log");
            },
            DaemonError::SignalFailed(which) => {
                out.append("Failed to send ");
                out.append(which.as_str());
            },
        }
        out
    }
}

/// What a signal-0 probe of a process can report.
#[derive(Debug)]
pub enum ProbeOutcome {
    /// The process exists and is visible to us.
    Exists,
    /// No process has this id.
    NoProcess,
    /// A process has this id but signaling it is not permitted.
    PermissionDenied,
    /// The probe itself failed for another reason.
    OtherError,
}

/// Relies on `nix::sys::signal::kill` with no signal: checks that the
/// process exists without signaling it, and reports `ESRCH` and `EPERM`
/// distinctly.
#[verifier::external_body]
pub fn probe_process(pid: i32) -> (r: ProbeOutcome)
{
    match nix::sys::signal::kill(nix::unistd::Pid::from_raw(pid), None::<nix::sys::signal::Signal>) {
        Ok(()) => ProbeOutcome::Exists,
        Err(nix::errno::Errno::ESRCH) => ProbeOutcome::NoProcess,
        Err(nix::errno::Errno::EPERM) => ProbeOutcome::PermissionDenied,
        Err(_) => ProbeOutcome::OtherError,
    }
}

/// Relies on `nix::sys::signal::kill` with `SIGTERM`: asks the process to
/// shut down gracefully; reports whether the signal was delivered.
#[verifier::external_body]
pub fn send_sigterm(pid: i32) -> (delivered: bool)
{
    nix::sys::signal::kill(nix::unistd::Pid::from_raw(pid), nix::sys::signal::Signal::SIGTERM)
        .is_ok()
}

/// Relies on `nix::sys::signal::kill` with `SIGKILL`: terminates the process
/// forcibly; reports whether the signal was delivered.
#[verifier::external_body]
pub fn send_sigkill(pid: i32) -> (delivered: bool)
{
    nix::sys::signal::kill(nix::unistd::Pid::from_raw(pid), nix::sys::signal::Signal::SIGKILL)
        .is_ok()
}

/// The liveness verdict a probe outcome supports: an existing process is
/// running; one we may not signal still exists, so it must count as running
/// (liveness is never under-reported); no process, or a failed probe, counts
/// as not running.
pub fn alive_from_probe(p: &ProbeOutcome) -> (alive: bool)
    ensures
        alive == (p is Exists || p is PermissionDenied),
{
    match p {
        ProbeOutcome::Exists => true,
        ProbeOutcome::PermissionDenied => true,
        ProbeOutcome::NoProcess => false,
        ProbeOutcome::OtherError => false,
    }
}

/// Probe liveness of a process id: the verdict is `alive_from_probe` of
/// whatever the one probe reported.
pub fn probe_alive(pid: i32) -> bool {
    let outcome = probe_process(pid);
    alive_from_probe(&outcome)
}

/// Read a PID file's contents: the trimmed text must be a decimal process
/// id that fits an `i32`; anything else is a `BadPidFile` error carrying the
/// trimmed text. A present-but-unparsable PID is never treated as "not
/// running".
pub fn parse_pid_file(contents: &str) -> (r: Result<i32, DaemonError>)
    ensures
        ({
            let t = trim_spec(contents@);
            if t.len() > 0 && all_digits(t) && parse_digits(t) <= i32::MAX {
                r == Ok::<i32, DaemonError>(parse_digits(t) as i32)
            } else {
                r matches Err(DaemonError::BadPidFile(m)) && m@ == t
            }
        }),
{
    let chars = str_to_chars(contents);
    let trimmed = trim_chars(&chars);
    match parse_u64_all(&trimmed) {
        Some(value) => {
            if value <= 0x7fff_ffff {
                Ok(value as i32)
            } else {
                Err(DaemonError::BadPidFile(chars_to_string(&trimmed)))
            }
        },
        None => Err(DaemonError::BadPidFile(chars_to_string(&trimmed))),
    }
}

/// The liveness reading of the PID file itself: no file means not running;
/// a file with a valid pid hands the pid on for probing; a file with
/// anything else is an error.
pub fn interpret_pid_file(contents: &Option<String>) -> (r: Result<Option<i32>, DaemonError>)
    ensures
        match contents {
            None => r == Ok::<Option<i32>, DaemonError>(None),
            Some(text) => {
                let t = trim_spec(text@);
                if t.len() > 0 && all_digits(t) && parse_digits(t) <= i32::MAX {
                    r == Ok::<Option<i32>, DaemonError>(Some(parse_digits(t) as i32))
                } else {
                    r matches Err(DaemonError::BadPidFile(m)) && m@ == t
                }
            },
        },
{
    match contents {
        None => Ok(None),
        Some(text) => {
            match parse_pid_file(text.as_str()) {
                Ok(pid) => Ok(Some(pid)),
                Err(e) => Err(e),
            }
        },
    }
}

/// The per-engine PID file path.
pub open spec fn pid_file_path_spec(name: Seq<char>) -> Seq<char> {
    profile_dir_spec(name) + "/daemon.pid"@
}

/// The per-engine log file path.
pub open spec fn log_file_path_spec(name: Seq<char>) -> Seq<char> {
    profile_dir_spec(name) + "/daemon.log"@
}

/// The daemon's socket path: a shared temporary directory, the sanitized
/// identifier and the daemon's own process id, so no two engines nor two
/// restart cycles share a socket.
pub open spec fn socket_path_spec(name: Seq<char>, pid: nat) -> Seq<char> {
    "/tmp/.mcp/"@ + sanitize_spec(name) + "-"@ + dec_digits(pid) + ".sock"@
}

pub fn pid_file_path(server_name: &str) -> (r: String)
    ensures
        r@ == pid_file_path_spec(server_name@),
{
    let mut out = crate::template::profile_dir_string(server_name);
    out.append("/daemon.pid");
    out
}

pub fn log_file_path(server_name: &str) -> (r: String)
    ensures
        r@ == log_file_path_spec(server_name@),
{
    let mut out = crate::template::profile_dir_string(server_name);
    out.append("/daemon.log");
    out
}

pub fn socket_path(server_name: &str, pid: u64) -> (r: String)
    ensures
        r@ == socket_path_spec(server_name@, pid as nat),
{
    let mut out: Vec<char> = Vec::new();
    let head = str_to_chars("/tmp/.mcp/");
    push_all(&mut out, &head);
    let safe = sanitize_server_name(server_name);
    let safe_chars = str_to_chars(safe.as_str());
    push_all(&mut out, &safe_chars);
    let dash = str_to_chars("-");
    push_all(&mut out, &dash);
    push_dec_digits(pid, &mut out);
    let ext = str_to_chars(".sock");
    push_all(&mut out, &ext);
    proof {
        assert(out@ =~= socket_path_spec(server_name@, pid as nat));
    }
    chars_to_string(&out)
}

/// Whether `start` may proceed: the profile must allow persistent mode and
/// no daemon may already be live.
pub fn start_check(supports_daemon: bool, already_running: bool, server_name: &str) -> (r: Result<
    (),
    DaemonError,
>)
    ensures
        !supports_daemon ==> (r matches Err(DaemonError::NotSupported(m)) && m@ == server_name@),
        supports_daemon && already_running ==> (r matches Err(DaemonError::AlreadyRunning(m)) && m@
            == server_name@),
        supports_daemon && !already_running ==> r is Ok,
{
    if !supports_daemon {
        Err(DaemonError::NotSupported(String::from_str(server_name)))
    } else if already_running {
        Err(DaemonError::AlreadyRunning(String::from_str(server_name)))
    } else {
        Ok(())
    }
}

/// One step of the readiness poll.
#[derive(Debug)]
pub enum StartPoll {
    /// The socket appeared: the daemon is up.
    Ready,
    /// The midpoint liveness check found the daemon dead: fail fast, remove
    /// the PID file, and point at the log.
    Crashed,
    /// Keep waiting one more tick.
    Wait,
    /// The whole bound elapsed without a socket: remove the PID file and
    /// report the timeout.
    TimedOut,
}

/// The decision at tick `tick` of the readiness poll: a visible socket wins;
/// exactly at the midpoint tick a dead daemon fails fast; otherwise wait,
/// until the bound is spent.
pub fn start_poll_step(tick: usize, socket_exists: bool, daemon_alive: bool) -> (d: StartPoll)
    ensures
        socket_exists ==> d is Ready,
        !socket_exists && tick == START_LIVENESS_TICK && !daemon_alive ==> d is Crashed,
        !socket_exists && !(tick == START_LIVENESS_TICK && !daemon_alive) && tick + 1
            < START_POLL_TICKS ==> d is Wait,
        !socket_exists && !(tick == START_LIVENESS_TICK && !daemon_alive) && tick + 1
            >= START_POLL_TICKS ==> d is TimedOut,
{
    if socket_exists {
        StartPoll::Ready
    } else if tick == START_LIVENESS_TICK && !daemon_alive {
        StartPoll::Crashed
    } else if tick < START_POLL_TICKS - 1 {
        StartPoll::Wait
    } else {
        StartPoll::TimedOut
    }
}

/// The error reported when the readiness poll saw the daemon die.
pub fn startup_crash_error(server_name: &str) -> (e: DaemonError)
    ensures
        e matches DaemonError::StartupCrash(m) && m@ == profile_dir_spec(server_name@),
{
    DaemonError::StartupCrash(crate::template::profile_dir_string(server_name))
}

/// The error reported when the readiness poll ran out of time.
pub fn startup_timeout_error(server_name: &str) -> (e: DaemonError)
    ensures
        e matches DaemonError::StartupTimeout(m) && m@ == profile_dir_spec(server_name@),
{
    DaemonError::StartupTimeout(crate::template::profile_dir_string(server_name))
}

/// One step of the graceful-stop poll.
#[derive(Debug)]
pub enum StopPoll {
    /// The daemon is gone: remove the PID file and the socket file.
    Stopped,
    /// Keep waiting one more tick.
    Wait,
    /// The grace window is spent: send the forceful signal, remove both
    /// files, and report a forced (not failed) stop.
    ForceKill,
}

/// The decision at tick `tick` of the stop poll.
pub fn stop_poll_step(tick: usize, still_running: bool) -> (d: StopPoll)
    ensures
        !still_running ==> d is Stopped,
        still_running && tick + 1 < STOP_POLL_TICKS ==> d is Wait,
        still_running && tick + 1 >= STOP_POLL_TICKS ==> d is ForceKill,
{
    if !still_running {
        StopPoll::Stopped
    } else if tick < STOP_POLL_TICKS - 1 {
        StopPoll::Wait
    } else {
        StopPoll::ForceKill
    }
}

/// What `status` does after the liveness reading.
#[derive(Debug)]
pub enum StatusAction {
    /// Report the daemon as running; touch nothing.
    ReportRunning,
    /// Report it as not running; there is no state to clean.
    ReportNotRunning,
    /// Report it as not running, warn, and remove the stale PID file and
    /// any matching socket file.
    CleanupStale,
}

/// The `status` decision: a live daemon is only reported, never cleaned;
/// a leftover PID file without a live process is stale and is removed
/// together with its socket; otherwise there is nothing to do.
pub fn status_decision(running: bool, pid_file_exists: bool) -> (a: StatusAction)
    ensures
        a == spec_status_decision(running, pid_file_exists),
        running ==> a is ReportRunning,
        !running && pid_file_exists ==> a is CleanupStale,
        !running && !pid_file_exists ==> a is ReportNotRunning,
{
    if running {
        StatusAction::ReportRunning
    } else if pid_file_exists {
        StatusAction::CleanupStale
    } else {
        StatusAction::ReportNotRunning
    }
}

/// Law: `status` of a live daemon never removes its files, and the decision
/// is a function of the liveness reading alone, so two readings with no
/// state change in between act identically.
pub proof fn lemma_status_preserves_live_daemon(running: bool, pid_file_exists: bool)
    requires
        running,
    ensures
        !(spec_status_decision(running, pid_file_exists) is CleanupStale),
{
}

/// The `status` decision as a pure function of the liveness reading.
pub open spec fn spec_status_decision(running: bool, pid_file_exists: bool) -> StatusAction {
    if running {
        StatusAction::ReportRunning
    } else if pid_file_exists {
        StatusAction::CleanupStale
    } else {
        StatusAction::ReportNotRunning
    }
}

/// The report text of `status`: two fixed header lines, then the liveness
/// verdict; a running daemon's pid and socket path are shown indented.
pub fn status_report(server_name: &str, live: &Option<(String, String)>) -> (r: String)
    ensures
        match live {
            Some(parts) => r@ == "Server: "@ + server_name@ + "\nProfile: "@ + profile_dir_spec(
                server_name@,
            ) + "\nDaemon is running\n  PID: "@ + parts.0@ + "\n  Socket: "@ + parts.1@ + "\n"@,
            None => r@ == "Server: "@ + server_name@ + "\nProfile: "@ + profile_dir_spec(
                server_name@,
            ) + "\nDaemon is not running\n"@,
        },
{
    let mut out = String::new();
    out.append("Server: ");
    out.append(server_name);
    out.append("\nProfile: ");
    let dir = crate::template::profile_dir_string(server_name);
    out.append(dir.as_str());
    match live {
        Some(parts) => {
            out.append("\nDaemon is running\n  PID: ");
            out.append(parts.0.as_str());
            out.append("\n  Socket: ");
            out.append(parts.1.as_str());
            out.append("\n");
        },
        None => {
            out.append("\nDaemon is not running\n");
        },
    }
    out
}


/// Law: socket paths never collide, neither across engines nor across
/// restart cycles: two equal socket paths come from the same sanitized
/// identifier and the same process id. The digits of the process id are the
/// one maximal digit run that ends right before the fixed extension, and
/// decimal rendering is injective.
pub proof fn lemma_socket_paths_never_collide(n1: Seq<char>, p1: nat, n2: Seq<char>, p2: nat)
    requires
        socket_path_spec(n1, p1) == socket_path_spec(n2, p2),
    ensures
        sanitize_spec(n1) == sanitize_spec(n2),
        p1 == p2,
{
    let s = socket_path_spec(n1, p1);
    lemma_socket_path_run(n1, p1);
    lemma_socket_path_run(n2, p2);
    let s1 = sanitize_spec(n1);
    let s2 = sanitize_spec(n2);
    let g1 = dec_digits(p1);
    let g2 = dec_digits(p2);
    assert(10 + s1.len() + 1 + g1.len() + 5 == 10 + s2.len() + 1 + g2.len() + 5);
    if g1.len() < g2.len() {
        // The dash of the first decomposition would sit inside the second's
        // digit run.
        assert(s[s.len() - 6 - g1.len()] == '-');
        assert(is_digit(s[s.len() - 6 - g1.len()]));
        assert(!is_digit('-'));
    }
    if g2.len() < g1.len() {
        assert(s[s.len() - 6 - g2.len()] == '-');
        assert(is_digit(s[s.len() - 6 - g2.len()]));
        assert(!is_digit('-'));
    }
    assert(g1.len() == g2.len());
    assert(g1 =~= g2) by {
        assert(g1 == s.subrange(s.len() - 5 - g1.len(), s.len() - 5));
        assert(g2 == s.subrange(s.len() - 5 - g2.len(), s.len() - 5));
    }
    crate::num::lemma_parse_dec_digits(p1);
    crate::num::lemma_parse_dec_digits(p2);
    assert(p1 == p2);
    assert(s1 =~= s2) by {
        assert(s1 == s.subrange(10, 10 + s1.len() as int));
        assert(s2 == s.subrange(10, 10 + s2.len() as int));
    }
}

/// Where each piece of a socket path stands, and that the id digits form a
/// digit run closed off by a dash on the left and the extension on the
/// right.
proof fn lemma_socket_path_run(n: Seq<char>, p: nat)
    ensures
        ({
            let s = socket_path_spec(n, p);
            let sn = sanitize_spec(n);
            let g = dec_digits(p);
            &&& s.len() == 10 + sn.len() + 1 + g.len() + 5
            &&& g.len() >= 1
            &&& sn == s.subrange(10, 10 + sn.len() as int)
            &&& s[10 + sn.len() as int] == '-'
            &&& s[s.len() - 6 - g.len()] == '-'
            &&& g == s.subrange(s.len() - 5 - g.len(), s.len() as int - 5)
            &&& forall|j: int|
                s.len() - 5 - g.len() <= j < s.len() - 5 ==> is_digit(#[trigger] s[j])
        }),
{
    reveal_strlit("/tmp/.mcp/");
    reveal_strlit("-");
    reveal_strlit(".sock");
    let s = socket_path_spec(n, p);
    let sn = sanitize_spec(n);
    let g = dec_digits(p);
    crate::num::lemma_dec_digits_are_digits(p);
    assert(s =~= "/tmp/.mcp/"@ + (sn + ("-"@ + (g + ".sock"@))));
    assert(s.skip(0) =~= s);
    crate::wire::lemma_peel(s, 0, "/tmp/.mcp/"@, sn + ("-"@ + (g + ".sock"@)));
    crate::wire::lemma_peel(s, 10, sn, "-"@ + (g + ".sock"@));
    crate::wire::lemma_peel(s, 10 + sn.len() as int, "-"@, g + ".sock"@);
    crate::wire::lemma_peel(s, 11 + sn.len() as int, g, ".sock"@);
    assert(s[10 + sn.len() as int] == '-') by {
        assert(s.skip(10 + sn.len() as int)[0] == s[10 + sn.len() as int]);
    }
    assert(s.len() == 10 + sn.len() + 1 + g.len() + 5);
    assert forall|j: int| s.len() - 5 - g.len() <= j < s.len() - 5 implies is_digit(
        #[trigger] s[j],
    ) by {
        assert(s[11 + sn.len() + (j - 11 - sn.len())] == g[j - 11 - sn.len()]);
    }
    assert(g =~= s.subrange(s.len() - 5 - g.len(), s.len() as int - 5));
}

} // verus!
