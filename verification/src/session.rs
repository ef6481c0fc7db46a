//! The protocol session's own state and decisions: the strictly increasing
//! request-id counter, the exact request lines of the handshake and of tool
//! calls, and the reading of engine replies, where a protocol-level `error`
//! is kept distinct from a tool-level `isError` failure.

use vstd::prelude::*;
use crate::envelope::{build_call_params, build_notification_line, build_request_line,
    call_params_spec, initialize_params, line_safe, notification_line_spec, request_line_spec};
use crate::template::{expand_spec, expand_template_vars, profile_dir_spec};
use crate::text::{chars_to_string, str_to_chars, trim_chars, trim_spec};

verus! {

/// How to launch one engine: the configured command line, its default
/// arguments, whether a daemon may host it, and its environment.
#[derive(Debug)]
pub struct ServerProfile {
    pub command: Vec<String>,
    pub default_args: Vec<String>,
    pub supports_daemon: bool,
    pub description: String,
    pub env: Vec<(String, String)>,
}

/// A session-level failure, keeping the protocol/tool distinction.
#[derive(Debug)]
pub enum SessionError {
    /// The engine could not be launched at all.
    Spawn(String),
    /// The transport broke, the reply was not JSON, or the reply carried an
    /// `error` field; the text describes it.
    Protocol(String),
    /// The engine answered, but the tool itself reported failure.
    Tool(String),
}

/// The message text of a session failure, in the shape the callers print.
pub open spec fn session_error_text(e: SessionError) -> Seq<char> {
    match e {
        SessionError::Spawn(m) => "Spawn Error: "@ + m@,
        SessionError::Protocol(m) => "MCP Error: "@ + m@,
        SessionError::Tool(m) => "Tool Error: "@ + m@,
    }
}

impl SessionError {
    /// The human-readable message, in the shape the callers print.
    pub fn message(&self) -> (r: String)
        ensures
            r@ == session_error_text(*self),
    {
        let mut out = String::new();
        match self {
            SessionError::Spawn(m) => {
                out.append("Spawn Error: ");
                out.append(m.as_str());
            },
            SessionError::Protocol(m) => {
                out.append("MCP Error: ");
                out.append(m.as_str());
            },
            SessionError::Tool(m) => {
                out.append("Tool Error: ");
                out.append(m.as_str());
            },
        }
        out
    }
}

/// The fixed method names and params texts of the protocol hold no line
/// break, so they may be spliced into one-line envelopes.
proof fn lemma_fixed_texts_line_safe()
    ensures
        line_safe("initialize"@),
        line_safe("tools/call"@),
        line_safe("tools/list"@),
        line_safe("notifications/initialized"@),
        line_safe("{}"@),
        line_safe(initialize_params()),
{
    reveal_strlit("initialize");
    reveal_strlit("tools/call");
    reveal_strlit("tools/list");
    reveal_strlit("notifications/initialized");
    reveal_strlit("{}");
    reveal_strlit(
        "{\"protocolVersion\":\"2025-06-18\",\"capabilities\":{},\"clientInfo\":{\"name\":\"mcp-cli\",\"version\":\"1.0.0\"}}",
    );
}

/// The id the counter value `c` allocates next.
pub open spec fn fresh_id_spec(c: u64) -> int {
    c + 1
}

/// The protocol state a session owns besides its engine process: the
/// request-id counter. Ids start at 1 and only ever move up.
pub struct SessionCore {
    pub last_id: u64,
}

impl SessionCore {
    pub fn new() -> (s: Self)
        ensures
            s.last_id == 0,
    {
        SessionCore { last_id: 0 }
    }

    /// Allocate the next request id.
    pub fn fresh_id(&mut self) -> (id: u64)
        requires
            old(self).last_id < u64::MAX,
        ensures
            final(self).last_id == old(self).last_id + 1,
            id == final(self).last_id,
            id == fresh_id_spec(old(self).last_id),
    {
        self.last_id = self.last_id + 1;
        self.last_id
    }

    /// The first handshake line: the `initialize` request.
    pub fn initialize_request(&mut self) -> (line: String)
        requires
            old(self).last_id < u64::MAX,
        ensures
            final(self).last_id == old(self).last_id + 1,
            line@ == request_line_spec(
                fresh_id_spec(old(self).last_id) as nat,
                "initialize"@,
                initialize_params(),
            ),
    {
        proof {
            lemma_fixed_texts_line_safe();
        }
        let id = self.fresh_id();
        build_request_line(
            id,
            "initialize",
            "{\"protocolVersion\":\"2025-06-18\",\"capabilities\":{},\"clientInfo\":{\"name\":\"mcp-cli\",\"version\":\"1.0.0\"}}",
        )
    }

    /// The second handshake line: the `initialized` notification; it carries
    /// no id and is never answered.
    pub fn initialized_notification(&self) -> (line: String)
        ensures
            line@ == notification_line_spec("notifications/initialized"@, "{}"@),
    {
        proof {
            lemma_fixed_texts_line_safe();
        }
        build_notification_line("notifications/initialized", "{}")
    }

    /// One `tools/call` request line around the raw JSON arguments, which
    /// are spliced in unchanged and so must hold no line break.
    pub fn call_tool_request(&mut self, tool: &str, args_json: &str) -> (line: String)
        requires
            old(self).last_id < u64::MAX,
            line_safe(args_json@),
        ensures
            final(self).last_id == old(self).last_id + 1,
            line@ == request_line_spec(
                fresh_id_spec(old(self).last_id) as nat,
                "tools/call"@,
                call_params_spec(tool@, args_json@),
            ),
    {
        proof {
            lemma_fixed_texts_line_safe();
        }
        let id = self.fresh_id();
        let params = build_call_params(tool, args_json);
        build_request_line(id, "tools/call", params.as_str())
    }

    /// One `tools/list` request line.
    pub fn list_tools_request(&mut self) -> (line: String)
        requires
            old(self).last_id < u64::MAX,
        ensures
            final(self).last_id == old(self).last_id + 1,
            line@ == request_line_spec(
                fresh_id_spec(old(self).last_id) as nat,
                "tools/list"@,
                "{}"@,
            ),
    {
        proof {
            lemma_fixed_texts_line_safe();
        }
        let id = self.fresh_id();
        build_request_line(id, "tools/list", "{}")
    }
}

/// Law: a session never reuses a request id. Every operation that allocates
/// an id leaves the counter strictly higher, and the id handed out equals
/// the counter after the allocation; so the ids of an earlier and a later
/// request, allocated at counter values `c0 < c1`, always differ.
pub proof fn lemma_request_ids_never_reused(c0: u64, c1: u64)
    requires
        c0 < c1,
    ensures
        fresh_id_spec(c0) != fresh_id_spec(c1),
{
}

/// What the session reads out of one engine response line, as plain values:
/// the protocol-level error text if any, the raw result text, and the
/// tool-level failure marker with its first content text.
#[derive(Debug)]
pub struct EngineReply {
    pub error_text: Option<String>,
    pub result_text: Option<String>,
    pub tool_is_error: Option<bool>,
    pub first_content_text: Option<String>,
}

/// Whether the JSON library decodes this line at all. Decoding is a
/// function of the line alone.
pub uninterp spec fn decodes(line: Seq<char>) -> bool;

/// The rendered text of the decoded line's `error` field, if one is there.
pub uninterp spec fn error_text_of(line: Seq<char>) -> Option<Seq<char>>;

/// The rendered text of the decoded line's `result` field, if one is there.
pub uninterp spec fn result_text_of(line: Seq<char>) -> Option<Seq<char>>;

/// The boolean `isError` marker inside the decoded line's result, if any.
pub uninterp spec fn tool_flag_of(line: Seq<char>) -> Option<bool>;

/// The text of the first content item inside the decoded line's result.
pub uninterp spec fn first_text_of(line: Seq<char>) -> Option<Seq<char>>;

/// The view of an optional text.
pub open spec fn view_opt(o: Option<String>) -> Option<Seq<char>> {
    match o {
        Some(s) => Some(s@),
        None => None,
    }
}

/// Relies on `serde_json::from_str` and `serde_json::Value`'s `get`,
/// `as_bool` and `as_str` accessors: decodes one engine response line into
/// the plain fields the session logic reads; `None` exactly when the line is
/// not valid JSON. Parsing and the rendering of the fields depend on the
/// line alone, so each decoded field carries its name.
#[verifier::external_body]
fn decode_response_line(line: &str) -> (r: Option<EngineReply>)
    ensures
        r is Some <==> decodes(line@),
        match r {
            Some(reply) => {
                &&& view_opt(reply.error_text) == error_text_of(line@)
                &&& view_opt(reply.result_text) == result_text_of(line@)
                &&& reply.tool_is_error == tool_flag_of(line@)
                &&& view_opt(reply.first_content_text) == first_text_of(line@)
            },
            None => true,
        },
{
    let value: serde_json::Value = serde_json::from_str(line).ok()?;
    let result = value.get("result");
    Some(EngineReply {
        error_text: value.get("error").map(|e| e.to_string()),
        result_text: result.map(|x| x.to_string()),
        tool_is_error: result.and_then(|x| x.get("isError")).and_then(|x| x.as_bool()),
        first_content_text: result
            .and_then(|x| x.get("content"))
            .and_then(|c| c.get(0))
            .and_then(|item| item.get("text"))
            .and_then(|t| t.as_str())
            .map(|s| s.to_string()),
    })
}

/// What the reply rules demand of a verdict on a `tools/call` reply
/// with the given decoded fields: a protocol-level error wins; otherwise an
/// `isError: true` result is a tool failure described by the first content
/// text, with a fixed fallback; otherwise the raw result text is handed back
/// (`null` when the envelope had no result at all).
pub open spec fn call_verdict(
    err: Option<Seq<char>>,
    res: Option<Seq<char>>,
    flag: Option<bool>,
    first: Option<Seq<char>>,
    r: Result<String, SessionError>,
) -> bool {
    match err {
        Some(e) => r matches Err(SessionError::Protocol(m)) && m@ == e,
        None => {
            if flag == Some(true) {
                match first {
                    Some(t) => r matches Err(SessionError::Tool(m)) && m@ == t,
                    None => r matches Err(SessionError::Tool(m)) && m@
                        == "Tool execution failed"@,
                }
            } else {
                r matches Ok(out) && out@ == (match res {
                    Some(t) => t,
                    None => "null"@,
                })
            }
        },
    }
}

/// What the reply rules demand of a verdict on a `tools/list` or
/// `initialize` reply: a protocol-level error wins, anything else hands the
/// raw result text back unchanged.
pub open spec fn plain_verdict(
    err: Option<Seq<char>>,
    res: Option<Seq<char>>,
    r: Result<String, SessionError>,
) -> bool {
    match err {
        Some(e) => r matches Err(SessionError::Protocol(m)) && m@ == e,
        None => r matches Ok(out) && out@ == (match res {
            Some(t) => t,
            None => "null"@,
        }),
    }
}

/// The verdict on one decoded reply to `tools/call`: a protocol-level
/// `error` field wins; otherwise an `isError: true` result is a tool failure
/// described by the first content text, or by a fixed fallback when no text
/// is there; otherwise the call succeeded and the raw result text is handed
/// back (`null` when the envelope had no result at all).
pub fn interpret_call_reply(reply: &EngineReply) -> (r: Result<String, SessionError>)
    ensures
        call_verdict(
            view_opt(reply.error_text),
            view_opt(reply.result_text),
            reply.tool_is_error,
            view_opt(reply.first_content_text),
            r,
        ),
{
    match &reply.error_text {
        Some(e) => Err(SessionError::Protocol(e.clone())),
        None => {
            let failed = match reply.tool_is_error {
                Some(b) => b,
                None => false,
            };
            if failed {
                match &reply.first_content_text {
                    Some(t) => Err(SessionError::Tool(t.clone())),
                    None => Err(SessionError::Tool(String::from_str("Tool execution failed"))),
                }
            } else {
                match &reply.result_text {
                    Some(t) => Ok(t.clone()),
                    None => Ok(String::from_str("null")),
                }
            }
        },
    }
}

/// The verdict on one decoded reply to `tools/list` or `initialize`: an
/// `error` field is a protocol failure, anything else hands the raw result
/// text back unchanged.
pub fn interpret_plain_reply(reply: &EngineReply) -> (r: Result<String, SessionError>)
    ensures
        plain_verdict(view_opt(reply.error_text), view_opt(reply.result_text), r),
{
    match &reply.error_text {
        Some(e) => Err(SessionError::Protocol(e.clone())),
        None => {
            match &reply.result_text {
                Some(t) => Ok(t.clone()),
                None => Ok(String::from_str("null")),
            }
        },
    }
}

/// Read one engine reply to `tools/call` off its raw line: trim it, decode
/// it with the JSON library, then judge the decoded fields. A line that does
/// not decode is exactly the fixed protocol failure; a line that decodes
/// gets the `call_verdict` of its named fields.
pub fn read_call_response(line: &str) -> (r: Result<String, SessionError>)
    ensures
        !decodes(trim_spec(line@)) ==> (r matches Err(SessionError::Protocol(m)) && m@
            == "Failed to parse JSON-RPC response"@),
        decodes(trim_spec(line@)) ==> call_verdict(
            error_text_of(trim_spec(line@)),
            result_text_of(trim_spec(line@)),
            tool_flag_of(trim_spec(line@)),
            first_text_of(trim_spec(line@)),
            r,
        ),
{
    let chars = str_to_chars(line);
    let trimmed_chars = trim_chars(&chars);
    let trimmed = chars_to_string(&trimmed_chars);
    match decode_response_line(trimmed.as_str()) {
        Some(reply) => interpret_call_reply(&reply),
        None => Err(
            SessionError::Protocol(String::from_str("Failed to parse JSON-RPC response")),
        ),
    }
}

/// Read one engine reply to `tools/list` or to the handshake's `initialize`:
/// the fixed protocol failure when the trimmed line does not decode, the
/// `plain_verdict` of its named fields when it does.
pub fn read_plain_response(line: &str) -> (r: Result<String, SessionError>)
    ensures
        !decodes(trim_spec(line@)) ==> (r matches Err(SessionError::Protocol(m)) && m@
            == "Failed to parse JSON-RPC response"@),
        decodes(trim_spec(line@)) ==> plain_verdict(
            error_text_of(trim_spec(line@)),
            result_text_of(trim_spec(line@)),
            r,
        ),
{
    let chars = str_to_chars(line);
    let trimmed_chars = trim_chars(&chars);
    let trimmed = chars_to_string(&trimmed_chars);
    match decode_response_line(trimmed.as_str()) {
        Some(reply) => interpret_plain_reply(&reply),
        None => Err(
            SessionError::Protocol(String::from_str("Failed to parse JSON-RPC response")),
        ),
    }
}

/// The program and fully expanded arguments an engine is launched with.
#[derive(Debug)]
pub struct LaunchPlan {
    pub program: String,
    pub args: Vec<String>,
}

/// Work out how an engine is launched: the first command
/// word is the program; the rest of the command comes first, then the chosen
/// argument list (the caller's override when one was given, the profile's
/// defaults otherwise), each with its placeholders expanded. A profile whose
/// command is empty cannot be launched.
pub fn build_launch_plan(
    profile: &ServerProfile,
    extra_args: &Option<Vec<String>>,
    server_name: &str,
    pid: &str,
    cwd: &str,
) -> (r: Result<LaunchPlan, SessionError>)
    ensures
        profile.command@.len() == 0 <==> (r matches Err(SessionError::Spawn(m)) && m@
            == "Server profile has empty command"@),
        profile.command@.len() > 0 ==> (r matches Ok(plan) && {
            let chosen = match extra_args {
                Some(v) => v@,
                None => profile.default_args@,
            };
            &&& plan.program@ == profile.command@[0]@
            &&& plan.args@.len() == profile.command@.len() - 1 + chosen.len()
            &&& (forall|i: int|
                0 <= i < profile.command@.len() - 1 ==> #[trigger] plan.args@[i]@
                    == profile.command@[i + 1]@)
            &&& (forall|i: int|
                0 <= i < chosen.len() ==> #[trigger] plan.args@[profile.command@.len() - 1 + i]@
                    == expand_spec(chosen[i]@, profile_dir_spec(server_name@), pid@, cwd@))
        }),
{
    if profile.command.len() == 0 {
        return Err(SessionError::Spawn(String::from_str("Server profile has empty command")));
    }
    let program = profile.command[0].clone();
    let mut args: Vec<String> = Vec::new();
    let mut i: usize = 1;
    while i < profile.command.len()
        invariant
            1 <= i <= profile.command@.len(),
            args@.len() == i - 1,
            forall|j: int| 0 <= j < i - 1 ==> #[trigger] args@[j]@ == profile.command@[j + 1]@,
        decreases profile.command@.len() - i,
    {
        args.push(profile.command[i].clone());
        i = i + 1;
    }
    let chosen: &Vec<String> = match extra_args {
        Some(v) => v,
        None => &profile.default_args,
    };
    let ghost base = profile.command@.len() - 1;
    let mut j: usize = 0;
    while j < chosen.len()
        invariant
            0 <= j <= chosen@.len(),
            profile.command@.len() >= 1,
            base == profile.command@.len() - 1,
            args@.len() == base + j,
            forall|k: int| 0 <= k < base ==> #[trigger] args@[k]@ == profile.command@[k + 1]@,
            forall|k: int|
                0 <= k < j ==> #[trigger] args@[base + k]@ == expand_spec(
                    chosen@[k]@,
                    profile_dir_spec(server_name@),
                    pid@,
                    cwd@,
                ),
        decreases chosen@.len() - j,
    {
        let expanded = expand_template_vars(chosen[j].as_str(), server_name, pid, cwd);
        proof {
            assert(expanded@ == expand_spec(
                chosen@[j as int]@,
                profile_dir_spec(server_name@),
                pid@,
                cwd@,
            ));
        }
        let ghost args0 = args@;
        args.push(expanded);
        proof {
            assert forall|k: int|
                0 <= k < j + 1 implies #[trigger] args@[base + k]@ == expand_spec(
                chosen@[k]@,
                profile_dir_spec(server_name@),
                pid@,
                cwd@,
            ) by {
                if k < j {
                    assert(args@[base + k] == args0[base + k]);
                } else {
                    assert(args@[base + k] == expanded);
                }
            }
            assert forall|k: int| 0 <= k < base implies #[trigger] args@[k]@
                == profile.command@[k + 1]@ by {
                assert(args@[k] == args0[k]);
            }
        }
        j = j + 1;
    }
    Ok(LaunchPlan { program, args })
}

} // verus!
