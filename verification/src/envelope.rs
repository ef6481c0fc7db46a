//! The line-delimited JSON-RPC envelope codec. One envelope is one JSON
//! object on one line; the same shapes travel over an engine's standard
//! streams and over the daemon's local socket. Requests and responses are
//! built by concatenation against exact shape functions, so the parsers in
//! `wire` can be proved to read back precisely what was written.

use vstd::prelude::*;
use crate::escape::{escape_spec, push_escaped};
use crate::num::{dec_digits, push_dec_digits};
use crate::text::{chars_to_string, push_all, str_to_chars};

verus! {

/// Text that may be spliced into a one-line envelope as it stands: it holds
/// no line break, so the envelope stays one JSON object on one line. Raw
/// JSON handed in by a caller must satisfy this; text the codec escapes
/// satisfies it by construction.
pub open spec fn line_safe(s: Seq<char>) -> bool {
    forall|i: int| 0 <= i < s.len() ==> #[trigger] s[i] != '\n' && s[i] != '\r'
}

/// Splicing two line-safe texts keeps the line safe.
pub proof fn lemma_line_safe_concat(a: Seq<char>, b: Seq<char>)
    requires
        line_safe(a),
        line_safe(b),
    ensures
        line_safe(a + b),
{
    assert forall|i: int| 0 <= i < (a + b).len() implies (a + b)[i] != '\n' && (a + b)[i]
        != '\r' by {
        if i < a.len() {
            assert((a + b)[i] == a[i]);
        } else {
            assert((a + b)[i] == b[i - a.len()]);
        }
    }
}

/// A request envelope: protocol marker, numeric id, method, params.
pub open spec fn request_line_spec(id: nat, method: Seq<char>, params: Seq<char>) -> Seq<char> {
    "{\"jsonrpc\":\"2.0\",\"id\":"@ + (dec_digits(id) + (",\"method\":\""@ + (method + (
    "\",\"params\":"@ + (params + "}"@)))))
}

/// A notification envelope: a request without an id; never answered.
pub open spec fn notification_line_spec(method: Seq<char>, params: Seq<char>) -> Seq<char> {
    "{\"jsonrpc\":\"2.0\",\"method\":\""@ + (method + ("\",\"params\":"@ + (params + "}"@)))
}

/// The params object of a `tools/call` request: the tool name escaped, the
/// arguments spliced in as the raw JSON text the caller supplied.
pub open spec fn call_params_spec(tool: Seq<char>, args: Seq<char>) -> Seq<char> {
    "{\"name\":\""@ + (escape_spec(tool) + ("\",\"arguments\":"@ + (args + "}"@)))
}

/// A success response envelope carrying raw result text.
pub open spec fn success_line_spec(id: nat, result: Seq<char>) -> Seq<char> {
    "{\"jsonrpc\":\"2.0\",\"id\":"@ + (dec_digits(id) + (",\"result\":"@ + (result + "}"@)))
}

/// An error response envelope carrying a message.
pub open spec fn error_line_spec(id: nat, message: Seq<char>) -> Seq<char> {
    "{\"jsonrpc\":\"2.0\",\"id\":"@ + (dec_digits(id) + (",\"error\":{\"message\":\""@ + (
    escape_spec(message) + "\"}}"@)))
}

/// The fixed params of the `initialize` request.
pub open spec fn initialize_params() -> Seq<char> {
    "{\"protocolVersion\":\"2025-06-18\",\"capabilities\":{},\"clientInfo\":{\"name\":\"mcp-cli\",\"version\":\"1.0.0\"}}"@
}

/// Build a request line. The method and the raw params text are spliced in
/// unchanged, so both must be free of line breaks.
pub fn build_request_line(id: u64, method: &str, params: &str) -> (r: String)
    requires
        line_safe(method@),
        line_safe(params@),
    ensures
        r@ == request_line_spec(id as nat, method@, params@),
{
    let mut out: Vec<char> = Vec::new();
    let p1 = str_to_chars("{\"jsonrpc\":\"2.0\",\"id\":");
    push_all(&mut out, &p1);
    push_dec_digits(id, &mut out);
    let p2 = str_to_chars(",\"method\":\"");
    push_all(&mut out, &p2);
    let m = str_to_chars(method);
    push_all(&mut out, &m);
    let p3 = str_to_chars("\",\"params\":");
    push_all(&mut out, &p3);
    let p = str_to_chars(params);
    push_all(&mut out, &p);
    let p4 = str_to_chars("}");
    push_all(&mut out, &p4);
    proof {
        assert(out@ =~= request_line_spec(id as nat, method@, params@));
    }
    chars_to_string(&out)
}

/// Build a notification line. As with requests, the spliced texts must be
/// free of line breaks.
pub fn build_notification_line(method: &str, params: &str) -> (r: String)
    requires
        line_safe(method@),
        line_safe(params@),
    ensures
        r@ == notification_line_spec(method@, params@),
{
    let mut out: Vec<char> = Vec::new();
    let p1 = str_to_chars("{\"jsonrpc\":\"2.0\",\"method\":\"");
    push_all(&mut out, &p1);
    let m = str_to_chars(method);
    push_all(&mut out, &m);
    let p2 = str_to_chars("\",\"params\":");
    push_all(&mut out, &p2);
    let p = str_to_chars(params);
    push_all(&mut out, &p);
    let p3 = str_to_chars("}");
    push_all(&mut out, &p3);
    proof {
        assert(out@ =~= notification_line_spec(method@, params@));
    }
    chars_to_string(&out)
}

/// Build the params object of a `tools/call` request. The tool name is
/// escaped; the raw arguments text is spliced in unchanged, so it must be
/// free of line breaks.
pub fn build_call_params(tool: &str, args_json: &str) -> (r: String)
    requires
        line_safe(args_json@),
    ensures
        r@ == call_params_spec(tool@, args_json@),
        line_safe(r@),
{
    let mut out: Vec<char> = Vec::new();
    let p1 = str_to_chars("{\"name\":\"");
    push_all(&mut out, &p1);
    let t = str_to_chars(tool);
    push_escaped(&t, &mut out);
    let p2 = str_to_chars("\",\"arguments\":");
    push_all(&mut out, &p2);
    let a = str_to_chars(args_json);
    push_all(&mut out, &a);
    let p3 = str_to_chars("}");
    push_all(&mut out, &p3);
    proof {
        assert(out@ =~= call_params_spec(tool@, args_json@));
        reveal_strlit("{\"name\":\"");
        reveal_strlit("\",\"arguments\":");
        reveal_strlit("}");
        assert(line_safe("{\"name\":\""@));
        assert(line_safe("\",\"arguments\":"@));
        assert(line_safe("}"@));
        crate::escape::lemma_escape_line_safe(tool@);
        assert(line_safe(escape_spec(tool@)));
        lemma_line_safe_concat(args_json@, "}"@);
        lemma_line_safe_concat("\",\"arguments\":"@, args_json@ + "}"@);
        lemma_line_safe_concat(escape_spec(tool@), "\",\"arguments\":"@ + (args_json@ + "}"@));
        lemma_line_safe_concat(
            "{\"name\":\""@,
            escape_spec(tool@) + ("\",\"arguments\":"@ + (args_json@ + "}"@)),
        );
    }
    chars_to_string(&out)
}

/// Build a success response line around raw result text, which is spliced
/// in unchanged and so must be free of line breaks.
pub fn build_success_response(id: u64, result_json: &str) -> (r: String)
    requires
        line_safe(result_json@),
    ensures
        r@ == success_line_spec(id as nat, result_json@),
{
    let mut out: Vec<char> = Vec::new();
    let p1 = str_to_chars("{\"jsonrpc\":\"2.0\",\"id\":");
    push_all(&mut out, &p1);
    push_dec_digits(id, &mut out);
    let p2 = str_to_chars(",\"result\":");
    push_all(&mut out, &p2);
    let v = str_to_chars(result_json);
    push_all(&mut out, &v);
    let p3 = str_to_chars("}");
    push_all(&mut out, &p3);
    proof {
        assert(out@ =~= success_line_spec(id as nat, result_json@));
    }
    chars_to_string(&out)
}

/// Build an error response line around a message.
pub fn build_error_response(id: u64, message: &str) -> (r: String)
    ensures
        r@ == error_line_spec(id as nat, message@),
{
    let mut out: Vec<char> = Vec::new();
    let p1 = str_to_chars("{\"jsonrpc\":\"2.0\",\"id\":");
    push_all(&mut out, &p1);
    push_dec_digits(id, &mut out);
    let p2 = str_to_chars(",\"error\":{\"message\":\"");
    push_all(&mut out, &p2);
    let m = str_to_chars(message);
    push_escaped(&m, &mut out);
    let p3 = str_to_chars("\"}}");
    push_all(&mut out, &p3);
    proof {
        assert(out@ =~= error_line_spec(id as nat, message@));
    }
    chars_to_string(&out)
}

} // verus!
