//! Reading envelopes back off the wire. The daemon and its client exchange
//! exactly the lines that `envelope`'s builders produce, so these parsers
//! carry contracts that pin down the result on every well-formed line: what
//! was built is read back unchanged. A line in any other shape is reported
//! malformed, never misread.

use vstd::prelude::*;
use crate::envelope::{call_params_spec, error_line_spec, request_line_spec, success_line_spec};
use crate::escape::{escape_spec, unescape_chars, unescape_spec, lemma_escape_no_quote,
    lemma_unescape_escape};
use crate::num::{all_digits, dec_digits, digit_run_end, is_digit, lemma_dec_digits_are_digits,
    lemma_digit_run_end_of, lemma_parse_dec_digits, lemma_run_prefix_digits, parse_digits,
    scan_u64};
use crate::text::{find_quote, matches_at, str_to_chars, subrange_to_string, subrange_to_vec,
    chars_to_string};

verus! {

/// A request read by the daemon off its socket.
#[derive(Debug)]
pub enum IpcRequest {
    Call { id: u64, tool: String, args: String },
    List { id: u64 },
}

/// What can go wrong on the socket transport, as seen by either side.
#[derive(Debug)]
pub enum IpcFault {
    /// The line is not a well-formed envelope.
    Malformed,
    /// A well-formed request named a method the daemon does not serve; the
    /// request's own id is kept so the answer can echo it.
    UnknownMethod { id: u64, method: String },
    /// The daemon answered with an error envelope carrying this message.
    Daemon(String),
    /// The socket transport itself failed: connecting, or a timed read or
    /// write; the text describes it.
    Transport(String),
}

/// Peel the first piece off a concatenation that starts at `p`.
pub(crate) proof fn lemma_peel(s: Seq<char>, p: int, a: Seq<char>, b: Seq<char>)
    requires
        0 <= p <= s.len(),
        s.skip(p) == a + b,
    ensures
        p + a.len() + b.len() == s.len(),
        s.subrange(p, p + a.len() as int) == a,
        s.skip(p + a.len() as int) == b,
        forall|i: int| 0 <= i < a.len() ==> s[p + i] == a[i],
{
    assert(s.skip(p).len() == a.len() + b.len());
    assert forall|i: int| 0 <= i < a.len() implies s[p + i] == a[i] by {
        assert(s.skip(p)[i] == s[p + i]);
        assert((a + b)[i] == a[i]);
    }
    assert(s.subrange(p, p + a.len() as int) =~= a);
    assert forall|i: int| 0 <= i < b.len() implies s.skip(p + a.len() as int)[i] == b[i] by {
        assert(s.skip(p + a.len() as int)[i] == s[p + a.len() + i]);
        assert(s.skip(p)[a.len() + i] == s[p + a.len() + i]);
        assert((a + b)[a.len() + i] == b[i]);
    }
    assert(s.skip(p + a.len() as int) =~= b);
}

/// Where a line holds rendered digits followed by a non-digit, the digit run
/// that starts there is exactly the rendered digits.
proof fn lemma_digit_run_at(s: Seq<char>, p: int, id: nat, tail: Seq<char>)
    requires
        0 <= p <= s.len(),
        s.skip(p) == dec_digits(id) + tail,
        tail.len() > 0,
        !is_digit(tail[0]),
    ensures
        digit_run_end(s, p) == p + dec_digits(id).len(),
        parse_digits(s.subrange(p, p + dec_digits(id).len() as int)) == id,
        s.skip(p + dec_digits(id).len() as int) == tail,
        dec_digits(id).len() >= 1,
{
    lemma_dec_digits_are_digits(id);
    let d = dec_digits(id);
    lemma_peel(s, p, d, tail);
    assert forall|i: int| p <= i < p + d.len() implies is_digit(#[trigger] s[i]) by {
        assert(s[p + (i - p)] == d[i - p]);
    }
    assert(s[p + d.len()] == tail[0]) by {
        assert(s.skip(p + d.len() as int)[0] == s[p + d.len()]);
    }
    lemma_digit_run_end_of(s, p, p + d.len() as int);
    lemma_parse_dec_digits(id);
}

/// Everything a parser needs to know about the layout of a success line.
proof fn lemma_success_shape(lv: Seq<char>, id: nat, result: Seq<char>)
    requires
        lv == success_line_spec(id, result),
    ensures
        lv.len() >= 22,
        lv.subrange(0, 22) == "{\"jsonrpc\":\"2.0\",\"id\":"@,
        dec_digits(id).len() >= 1,
        digit_run_end(lv, 22) == 22 + dec_digits(id).len(),
        parse_digits(lv.subrange(22, 22 + dec_digits(id).len() as int)) == id,
        lv.subrange(
            22 + dec_digits(id).len() as int,
            22 + dec_digits(id).len() + 10int,
        ) == ",\"result\":"@,
        lv.len() == 22 + dec_digits(id).len() + 10 + result.len() + 1int,
        lv.subrange(22 + dec_digits(id).len() + 10int, lv.len() as int - 1) == result,
        lv[lv.len() - 1] == '}',
{
    reveal_strlit("{\"jsonrpc\":\"2.0\",\"id\":");
    reveal_strlit(",\"result\":");
    reveal_strlit("}");
    assert(lv.skip(0) =~= lv);
    lemma_peel(lv, 0, "{\"jsonrpc\":\"2.0\",\"id\":"@, dec_digits(id) + (",\"result\":"@ + (result
        + "}"@)));
    lemma_digit_run_at(lv, 22, id, ",\"result\":"@ + (result + "}"@));
    let m = 22 + dec_digits(id).len() as int;
    lemma_peel(lv, m, ",\"result\":"@, result + "}"@);
    lemma_peel(lv, m + 10, result, "}"@);
    assert(lv[lv.len() - 1] == "}"@[0]) by {
        assert(lv.skip(m + 10 + result.len() as int)[0] == lv[m + 10 + result.len()]);
    }
}

/// Everything a parser needs to know about the layout of an error line.
proof fn lemma_error_shape(lv: Seq<char>, id: nat, msg: Seq<char>)
    requires
        lv == error_line_spec(id, msg),
    ensures
        lv.len() >= 22,
        lv.subrange(0, 22) == "{\"jsonrpc\":\"2.0\",\"id\":"@,
        dec_digits(id).len() >= 1,
        digit_run_end(lv, 22) == 22 + dec_digits(id).len(),
        parse_digits(lv.subrange(22, 22 + dec_digits(id).len() as int)) == id,
        lv.subrange(
            22 + dec_digits(id).len() as int,
            22 + dec_digits(id).len() + 21int,
        ) == ",\"error\":{\"message\":\""@,
        lv.len() == 22 + dec_digits(id).len() + 21 + escape_spec(msg).len() + 3int,
        lv.subrange(
            22 + dec_digits(id).len() + 21int,
            22 + dec_digits(id).len() + 21 + escape_spec(msg).len() as int,
        ) == escape_spec(msg),
        forall|j: int|
            22 + dec_digits(id).len() + 21 <= j < 22 + dec_digits(id).len() + 21 + escape_spec(
                msg,
            ).len() ==> #[trigger] lv[j] != '"',
        lv[22 + dec_digits(id).len() + 21 + escape_spec(msg).len() as int] == '"',
        lv.skip(22 + dec_digits(id).len() + 21 + escape_spec(msg).len() as int) == "\"}}"@,
{
    reveal_strlit("{\"jsonrpc\":\"2.0\",\"id\":");
    reveal_strlit(",\"error\":{\"message\":\"");
    reveal_strlit("\"}}");
    assert(lv.skip(0) =~= lv);
    lemma_peel(lv, 0, "{\"jsonrpc\":\"2.0\",\"id\":"@, dec_digits(id) + (
    ",\"error\":{\"message\":\""@ + (escape_spec(msg) + "\"}}"@)));
    lemma_digit_run_at(lv, 22, id, ",\"error\":{\"message\":\""@ + (escape_spec(msg) + "\"}}"@));
    let m = 22 + dec_digits(id).len() as int;
    lemma_peel(lv, m, ",\"error\":{\"message\":\""@, escape_spec(msg) + "\"}}"@);
    lemma_peel(lv, m + 21, escape_spec(msg), "\"}}"@);
    lemma_escape_no_quote(msg);
    let e = escape_spec(msg).len() as int;
    assert forall|j: int| m + 21 <= j < m + 21 + e implies #[trigger] lv[j] != '"' by {
        assert(lv[m + 21 + (j - m - 21)] == escape_spec(msg)[j - m - 21]);
    }
    assert(lv[m + 21 + e] == "\"}}"@[0]) by {
        assert(lv.skip(m + 21 + e)[0] == lv[m + 21 + e]);
    }
}

/// Read one response line as the IPC client does: the result text of a
/// success envelope, the carried message of an error envelope, a fault
/// otherwise. The contract makes the daemon transparent: whatever result or
/// error message the daemon wrapped, the caller reads back exactly.
#[verifier::rlimit(60)]
pub fn parse_ipc_response(line: &str) -> (r: Result<String, IpcFault>)
    ensures
        forall|id: nat, result: Seq<char>|
            id <= u64::MAX && line@ == success_line_spec(id, result) ==> (r matches Ok(out)
                && out@ == result),
        forall|id: nat, msg: Seq<char>|
            id <= u64::MAX && line@ == error_line_spec(id, msg) ==> (r matches Err(
                IpcFault::Daemon(m),
            ) && m@ == msg),
        r matches Ok(out) ==> exists|ds: Seq<char>|
            all_digits(ds) && ds.len() >= 1 && line@ == "{\"jsonrpc\":\"2.0\",\"id\":"@ + ds
                + ",\"result\":"@ + out@ + "}"@,
        r matches Err(IpcFault::Daemon(m)) ==> exists|ds: Seq<char>, raw: Seq<char>|
            all_digits(ds) && ds.len() >= 1 && unescape_spec(raw) == Some(m@) && line@
                == "{\"jsonrpc\":\"2.0\",\"id\":"@ + ds + ",\"error\":{\"message\":\""@ + raw
                + "\"}}"@,
{
    let v = str_to_chars(line);
    let n = v.len();
    let pre = str_to_chars("{\"jsonrpc\":\"2.0\",\"id\":");
    let mres = str_to_chars(",\"result\":");
    let merr = str_to_chars(",\"error\":{\"message\":\"");
    let ghost lv = line@;
    proof {
        reveal_strlit("{\"jsonrpc\":\"2.0\",\"id\":");
        reveal_strlit(",\"result\":");
        reveal_strlit(",\"error\":{\"message\":\"");
    }
    if !matches_at(&v, 0, &pre) {
        proof {
            assert forall|id: nat, result: Seq<char>| lv != success_line_spec(id, result) by {
                if lv == success_line_spec(id, result) {
                    lemma_success_shape(lv, id, result);
                }
            }
            assert forall|id: nat, msg: Seq<char>| lv != error_line_spec(id, msg) by {
                if lv == error_line_spec(id, msg) {
                    lemma_error_shape(lv, id, msg);
                }
            }
        }
        return Err(IpcFault::Malformed);
    }
    let scanned = scan_u64(&v, pre.len());
    if scanned.is_none() {
        proof {
            assert forall|id: nat, result: Seq<char>|
                !(id <= u64::MAX && lv == success_line_spec(id, result)) by {
                if id <= u64::MAX && lv == success_line_spec(id, result) {
                    lemma_success_shape(lv, id, result);
                }
            }
            assert forall|id: nat, msg: Seq<char>|
                !(id <= u64::MAX && lv == error_line_spec(id, msg)) by {
                if id <= u64::MAX && lv == error_line_spec(id, msg) {
                    lemma_error_shape(lv, id, msg);
                }
            }
        }
        return Err(IpcFault::Malformed);
    }
    let (_idv, pos) = scanned.unwrap();
    proof {
        lemma_run_prefix_digits(v@, 22, digit_run_end(v@, 22));
    }
    if matches_at(&v, pos, &mres) {
        // A success envelope: the raw result text runs to the closing brace.
        proof {
            // An error envelope cannot also match here: the texts differ
            // three characters in.
            assert forall|id: nat, msg: Seq<char>| lv != error_line_spec(id, msg) by {
                if lv == error_line_spec(id, msg) {
                    lemma_error_shape(lv, id, msg);
                    assert(lv.subrange(pos as int, pos + 10)[2] == 'e');
                    assert(lv.subrange(pos as int, pos + 10) == mres@);
                }
            }
        }
        let body_start = pos + mres.len();
        if n - body_start < 1 {
            proof {
                assert forall|id: nat, result: Seq<char>| lv != success_line_spec(
                    id,
                    result,
                ) by {
                    if lv == success_line_spec(id, result) {
                        lemma_success_shape(lv, id, result);
                    }
                }
            }
            return Err(IpcFault::Malformed);
        }
        let out = subrange_to_string(&v, body_start, n - 1);
        let closer = v[n - 1];
        if closer != '}' {
            proof {
                assert forall|id: nat, result: Seq<char>| lv != success_line_spec(
                    id,
                    result,
                ) by {
                    if lv == success_line_spec(id, result) {
                        lemma_success_shape(lv, id, result);
                    }
                }
            }
            return Err(IpcFault::Malformed);
        }
        proof {
            assert forall|id: nat, result: Seq<char>|
                lv == success_line_spec(id, result) implies out@ == result by {
                lemma_success_shape(lv, id, result);
            }
            // The line really is a success envelope: its pieces are the
            // matched prefix, the scanned digits, the matched marker, the
            // copied-out body and the closing brace.
            reveal_strlit("}");
            let ds = lv.subrange(22, pos as int);
            lemma_run_prefix_digits(lv, 22, pos as int);
            assert(all_digits(ds));
            let p1l = "{\"jsonrpc\":\"2.0\",\"id\":"@;
            let mresl = ",\"result\":"@;
            assert forall|i: int| 0 <= i < 22 implies lv[i] == p1l[i] by {
                assert(lv.subrange(0, 22)[i] == lv[i]);
            }
            assert forall|i: int| 22 <= i < pos implies lv[i] == ds[i - 22] by {
                assert(lv.subrange(22, pos as int)[i - 22] == lv[i]);
            }
            assert(lv.subrange(pos as int, pos + 10) == mresl);
            assert forall|i: int| pos <= i < pos + 10 implies lv[i] == mresl[i - pos] by {
                assert(lv.subrange(pos as int, pos + 10)[i - pos] == lv[i]);
            }
            assert(out@ == lv.subrange(pos + 10, n - 1));
            assert forall|i: int| pos + 10 <= i < n - 1 implies lv[i] == out@[i - pos - 10] by {
                assert(lv.subrange(pos + 10, n - 1)[i - pos - 10] == lv[i]);
            }
            assert(lv[n - 1] == '}');
            assert(lv =~= p1l + ds + mresl + out@ + "}"@);
        }
        Ok(out)
    } else if matches_at(&v, pos, &merr) {
        proof {
            // A success envelope cannot also match here.
            assert forall|id: nat, result: Seq<char>| lv != success_line_spec(id, result) by {
                if lv == success_line_spec(id, result) {
                    lemma_success_shape(lv, id, result);
                    assert(lv.subrange(pos as int, pos + 21)[2] == 'r');
                    assert(lv.subrange(pos as int, pos + 21) == merr@);
                }
            }
        }
        let msg_start = pos + merr.len();
        let found = find_quote(&v, msg_start);
        proof {
            assert forall|id: nat, msg: Seq<char>|
                lv == error_line_spec(id, msg) implies found matches Some(k) && k as int
                == msg_start + escape_spec(msg).len() by {
                lemma_error_shape(lv, id, msg);
                match found {
                    None => {
                        assert(v@[msg_start + escape_spec(msg).len() as int] == '"');
                    },
                    Some(k) => {
                        if (k as int) < msg_start + escape_spec(msg).len() {
                            assert(lv[k as int] != '"');
                        }
                        if (k as int) > msg_start + escape_spec(msg).len() {
                            assert(lv[msg_start + escape_spec(msg).len() as int] != '"');
                        }
                    },
                }
            }
        }
        match found {
            None => Err(IpcFault::Malformed),
            Some(k) => {
                let raw = subrange_to_vec(&v, msg_start, k);
                let tail3 = str_to_chars("\"}}");
                if !matches_at(&v, k, &tail3) || k + tail3.len() != n {
                    proof {
                        reveal_strlit("\"}}");
                        assert forall|id: nat, msg: Seq<char>| lv != error_line_spec(
                            id,
                            msg,
                        ) by {
                            if lv == error_line_spec(id, msg) {
                                lemma_error_shape(lv, id, msg);
                                assert(lv.subrange(k as int, k + 3) =~= "\"}}"@);
                            }
                        }
                    }
                    return Err(IpcFault::Malformed);
                }
                match unescape_chars(&raw) {
                    Some(msg_chars) => {
                        let m_text = chars_to_string(&msg_chars);
                        proof {
                            assert forall|id: nat, msg: Seq<char>|
                                lv == error_line_spec(id, msg) implies msg_chars@ == msg by {
                                lemma_error_shape(lv, id, msg);
                                assert(raw@ == escape_spec(msg));
                                lemma_unescape_escape(msg);
                            }
                            // The line really is an error envelope around the
                            // raw escaped message that was unescaped.
                            reveal_strlit("\"}}");
                            let ds = lv.subrange(22, pos as int);
                            lemma_run_prefix_digits(lv, 22, pos as int);
                            assert(all_digits(ds));
                            let p1l = "{\"jsonrpc\":\"2.0\",\"id\":"@;
                            let merrl = ",\"error\":{\"message\":\""@;
                            assert forall|i: int| 0 <= i < 22 implies lv[i] == p1l[i] by {
                                assert(lv.subrange(0, 22)[i] == lv[i]);
                            }
                            assert forall|i: int| 22 <= i < pos implies lv[i] == ds[i - 22] by {
                                assert(lv.subrange(22, pos as int)[i - 22] == lv[i]);
                            }
                            assert(lv.subrange(pos as int, pos + 21) == merrl);
                            assert forall|i: int| pos <= i < pos + 21 implies lv[i] == merrl[i
                                - pos] by {
                                assert(lv.subrange(pos as int, pos + 21)[i - pos] == lv[i]);
                            }
                            assert(raw@ == lv.subrange(msg_start as int, k as int));
                            assert forall|i: int| msg_start <= i < k implies lv[i] == raw@[i
                                - msg_start] by {
                                assert(lv.subrange(msg_start as int, k as int)[i - msg_start]
                                    == lv[i]);
                            }
                            assert(lv.subrange(k as int, k + 3) == "\"}}"@);
                            assert forall|i: int| k <= i < k + 3 implies lv[i] == "\"}}"@[i
                                - k] by {
                                assert(lv.subrange(k as int, k + 3)[i - k] == lv[i]);
                            }
                            assert(lv =~= p1l + ds + merrl + raw@ + "\"}}"@);
                        }
                        Err(IpcFault::Daemon(m_text))
                    },
                    None => {
                        proof {
                            assert forall|id: nat, msg: Seq<char>| lv != error_line_spec(
                                id,
                                msg,
                            ) by {
                                if lv == error_line_spec(id, msg) {
                                    lemma_error_shape(lv, id, msg);
                                    assert(raw@ == escape_spec(msg));
                                    lemma_unescape_escape(msg);
                                }
                            }
                        }
                        Err(IpcFault::Malformed)
                    },
                }
            },
        }
    } else {
        proof {
            assert forall|id: nat, result: Seq<char>| lv != success_line_spec(id, result) by {
                if lv == success_line_spec(id, result) {
                    lemma_success_shape(lv, id, result);
                }
            }
            assert forall|id: nat, msg: Seq<char>| lv != error_line_spec(id, msg) by {
                if lv == error_line_spec(id, msg) {
                    lemma_error_shape(lv, id, msg);
                }
            }
        }
        Err(IpcFault::Malformed)
    }
}


/// Everything the daemon-side parser needs to know about the layout of a
/// `tools/call` request line.
proof fn lemma_call_request_shape(lv: Seq<char>, id: nat, tool: Seq<char>, args: Seq<char>)
    requires
        lv == request_line_spec(id, "tools/call"@, call_params_spec(tool, args)),
    ensures
        lv.subrange(0, 22) == "{\"jsonrpc\":\"2.0\",\"id\":"@,
        dec_digits(id).len() >= 1,
        digit_run_end(lv, 22) == 22 + dec_digits(id).len(),
        parse_digits(lv.subrange(22, 22 + dec_digits(id).len() as int)) == id,
        lv.subrange(
            22 + dec_digits(id).len() as int,
            22 + dec_digits(id).len() + 11int,
        ) == ",\"method\":\""@,
        lv.subrange(
            22 + dec_digits(id).len() + 11int,
            22 + dec_digits(id).len() + 21int,
        ) == "tools/call"@,
        lv.subrange(
            22 + dec_digits(id).len() + 21int,
            22 + dec_digits(id).len() + 32int,
        ) == "\",\"params\":"@,
        lv.subrange(
            22 + dec_digits(id).len() + 32int,
            22 + dec_digits(id).len() + 41int,
        ) == "{\"name\":\""@,
        lv.subrange(
            22 + dec_digits(id).len() + 41int,
            22 + dec_digits(id).len() + 41 + escape_spec(tool).len() as int,
        ) == escape_spec(tool),
        forall|j: int|
            22 + dec_digits(id).len() + 41 <= j < 22 + dec_digits(id).len() + 41 + escape_spec(
                tool,
            ).len() ==> #[trigger] lv[j] != '"',
        lv[22 + dec_digits(id).len() + 41 + escape_spec(tool).len() as int] == '"',
        lv.subrange(
            22 + dec_digits(id).len() + 41 + escape_spec(tool).len() as int,
            22 + dec_digits(id).len() + 55 + escape_spec(tool).len() as int,
        ) == "\",\"arguments\":"@,
        lv.len() == 22 + dec_digits(id).len() + 55 + escape_spec(tool).len() + args.len() + 2int,
        lv.subrange(
            22 + dec_digits(id).len() + 55 + escape_spec(tool).len() as int,
            lv.len() as int - 2,
        ) == args,
        lv.subrange(lv.len() as int - 2, lv.len() as int) == "}}"@,
{
    reveal_strlit("{\"jsonrpc\":\"2.0\",\"id\":");
    reveal_strlit(",\"method\":\"");
    reveal_strlit("tools/call");
    reveal_strlit("\",\"params\":");
    reveal_strlit("{\"name\":\"");
    reveal_strlit("\",\"arguments\":");
    reveal_strlit("}");
    reveal_strlit("}}");
    let e = escape_spec(tool).len() as int;
    let cps = call_params_spec(tool, args);
    assert(cps + "}"@ =~= "{\"name\":\""@ + (escape_spec(tool) + ("\",\"arguments\":"@ + (args
        + "}}"@))));
    assert(lv.skip(0) =~= lv);
    lemma_peel(lv, 0, "{\"jsonrpc\":\"2.0\",\"id\":"@, dec_digits(id) + (",\"method\":\""@ + (
    "tools/call"@ + ("\",\"params\":"@ + (cps + "}"@)))));
    lemma_digit_run_at(lv, 22, id, ",\"method\":\""@ + ("tools/call"@ + ("\",\"params\":"@ + (cps
        + "}"@))));
    let m = 22 + dec_digits(id).len() as int;
    lemma_peel(lv, m, ",\"method\":\""@, "tools/call"@ + ("\",\"params\":"@ + (cps + "}"@)));
    lemma_peel(lv, m + 11, "tools/call"@, "\",\"params\":"@ + (cps + "}"@));
    lemma_peel(lv, m + 21, "\",\"params\":"@, cps + "}"@);
    lemma_peel(lv, m + 32, "{\"name\":\""@, escape_spec(tool) + ("\",\"arguments\":"@ + (args
        + "}}"@)));
    lemma_peel(lv, m + 41, escape_spec(tool), "\",\"arguments\":"@ + (args + "}}"@));
    lemma_peel(lv, m + 41 + e, "\",\"arguments\":"@, args + "}}"@);
    lemma_peel(lv, m + 55 + e, args, "}}"@);
    lemma_escape_no_quote(tool);
    assert forall|j: int| m + 41 <= j < m + 41 + e implies #[trigger] lv[j] != '"' by {
        assert(lv[m + 41 + (j - m - 41)] == escape_spec(tool)[j - m - 41]);
    }
    assert(lv[m + 41 + e] == "\",\"arguments\":"@[0]) by {
        assert(lv.skip(m + 41 + e)[0] == lv[m + 41 + e]);
    }
    assert(lv.subrange(lv.len() as int - 2, lv.len() as int) =~= "}}"@);
}

/// The layout of a `tools/list` request line.
proof fn lemma_list_request_shape(lv: Seq<char>, id: nat)
    requires
        lv == request_line_spec(id, "tools/list"@, "{}"@),
    ensures
        lv.subrange(0, 22) == "{\"jsonrpc\":\"2.0\",\"id\":"@,
        dec_digits(id).len() >= 1,
        digit_run_end(lv, 22) == 22 + dec_digits(id).len(),
        parse_digits(lv.subrange(22, 22 + dec_digits(id).len() as int)) == id,
        lv.subrange(
            22 + dec_digits(id).len() as int,
            22 + dec_digits(id).len() + 11int,
        ) == ",\"method\":\""@,
        lv.subrange(
            22 + dec_digits(id).len() + 11int,
            22 + dec_digits(id).len() + 21int,
        ) == "tools/list"@,
        lv.subrange(
            22 + dec_digits(id).len() + 21int,
            22 + dec_digits(id).len() + 32int,
        ) == "\",\"params\":"@,
        lv.subrange(
            22 + dec_digits(id).len() + 32int,
            22 + dec_digits(id).len() + 35int,
        ) == "{}}"@,
        lv.len() == 22 + dec_digits(id).len() + 35int,
{
    reveal_strlit("{\"jsonrpc\":\"2.0\",\"id\":");
    reveal_strlit(",\"method\":\"");
    reveal_strlit("tools/list");
    reveal_strlit("\",\"params\":");
    reveal_strlit("{}");
    reveal_strlit("}");
    reveal_strlit("{}}");
    assert("{}"@ + "}"@ =~= "{}}"@);
    assert(lv.skip(0) =~= lv);
    lemma_peel(lv, 0, "{\"jsonrpc\":\"2.0\",\"id\":"@, dec_digits(id) + (",\"method\":\""@ + (
    "tools/list"@ + ("\",\"params\":"@ + ("{}"@ + "}"@)))));
    lemma_digit_run_at(lv, 22, id, ",\"method\":\""@ + ("tools/list"@ + ("\",\"params\":"@ + (
    "{}"@ + "}"@))));
    let m = 22 + dec_digits(id).len() as int;
    lemma_peel(lv, m, ",\"method\":\""@, "tools/list"@ + ("\",\"params\":"@ + ("{}"@ + "}"@)));
    lemma_peel(lv, m + 11, "tools/list"@, "\",\"params\":"@ + ("{}"@ + "}"@));
    lemma_peel(lv, m + 21, "\",\"params\":"@, "{}"@ + "}"@);
    lemma_peel(lv, m + 32, "{}}"@, Seq::<char>::empty());
}

/// The facts the daemon-side parser establishes before it dispatches on the
/// method: the id digits were scanned, so under either well-formed-line
/// hypothesis the scanned id and position are pinned down.
pub open spec fn call_scan_facts(v: Seq<char>, idv: u64, pos: int) -> bool {
    forall|id: nat, tool: Seq<char>, args: Seq<char>|
        id <= u64::MAX && v == #[trigger] request_line_spec(
            id,
            "tools/call"@,
            call_params_spec(tool, args),
        ) ==> idv as nat == id && pos == 22 + dec_digits(id).len()
}

/// Parse the rest of a `tools/call` request, after the prefix, the id and
/// the method name have already been matched at `pos`.
#[verifier::rlimit(100)]
#[verifier::spinoff_prover]
fn parse_call_branch(v: &Vec<char>, idv: u64, pos: usize) -> (r: Result<IpcRequest, IpcFault>)
    requires
        pos + 21 <= v@.len(),
        call_scan_facts(v@, idv, pos as int),
    ensures
        forall|id: nat, tool: Seq<char>, args: Seq<char>|
            id <= u64::MAX && v@ == request_line_spec(
                id,
                "tools/call"@,
                call_params_spec(tool, args),
            ) ==> (r matches Ok(IpcRequest::Call { id: rid, tool: rtool, args: rargs }) && rid
                as nat == id && rtool@ == tool && rargs@ == args),
{
    let ghost lv = v@;
    let n = v.len();
    let t0 = pos + 11;
    let pat_prm = str_to_chars("\",\"params\":");
    let pat_name = str_to_chars("{\"name\":\"");
    let pat_qa = str_to_chars("\",\"arguments\":");
    let pat_rbb = str_to_chars("}}");
    proof {
        reveal_strlit("\",\"params\":");
        reveal_strlit("{\"name\":\"");
        reveal_strlit("\",\"arguments\":");
        reveal_strlit("}}");
    }
    if !matches_at(&v, t0 + 10, &pat_prm) {
        proof {
            assert forall|id: nat, tool: Seq<char>, args: Seq<char>|
                !(id <= u64::MAX && lv == request_line_spec(
                    id,
                    "tools/call"@,
                    call_params_spec(tool, args),
                )) by {
                if id <= u64::MAX && lv == request_line_spec(
                    id,
                    "tools/call"@,
                    call_params_spec(tool, args),
                ) {
                    lemma_call_request_shape(lv, id, tool, args);
                }
            }
        }
        return Err(IpcFault::Malformed);
    }
    if !matches_at(&v, t0 + 21, &pat_name) {
        proof {
            assert forall|id: nat, tool: Seq<char>, args: Seq<char>|
                !(id <= u64::MAX && lv == request_line_spec(
                    id,
                    "tools/call"@,
                    call_params_spec(tool, args),
                )) by {
                if id <= u64::MAX && lv == request_line_spec(
                    id,
                    "tools/call"@,
                    call_params_spec(tool, args),
                ) {
                    lemma_call_request_shape(lv, id, tool, args);
                }
            }
        }
        return Err(IpcFault::Malformed);
    }
    let q0 = t0 + 30;
    let found = find_quote(&v, q0);
    if found.is_none() {
        proof {
            assert forall|id: nat, tool: Seq<char>, args: Seq<char>|
                !(id <= u64::MAX && lv == request_line_spec(
                    id,
                    "tools/call"@,
                    call_params_spec(tool, args),
                )) by {
                if id <= u64::MAX && lv == request_line_spec(
                    id,
                    "tools/call"@,
                    call_params_spec(tool, args),
                ) {
                    lemma_call_request_shape(lv, id, tool, args);
                    assert(lv[22 + dec_digits(id).len() + 41 + escape_spec(tool).len() as int]
                        == '"');
                }
            }
        }
        return Err(IpcFault::Malformed);
    }
    let k = found.unwrap();
    let raw = subrange_to_vec(&v, q0, k);
    let unescaped = unescape_chars(&raw);
    if unescaped.is_none() {
        proof {
            assert forall|id: nat, tool: Seq<char>, args: Seq<char>|
                !(id <= u64::MAX && lv == request_line_spec(
                    id,
                    "tools/call"@,
                    call_params_spec(tool, args),
                )) by {
                if id <= u64::MAX && lv == request_line_spec(
                    id,
                    "tools/call"@,
                    call_params_spec(tool, args),
                ) {
                    lemma_call_request_shape(lv, id, tool, args);
                    let e = escape_spec(tool).len() as int;
                    if (k as int) < q0 + e {
                        assert(lv[k as int] != '"');
                    }
                    if (k as int) > q0 + e {
                        assert(lv[q0 + e] != '"');
                    }
                    assert(k as int == q0 + e);
                    assert(raw@ == escape_spec(tool));
                    lemma_unescape_escape(tool);
                }
            }
        }
        return Err(IpcFault::Malformed);
    }
    let tool_chars = unescaped.unwrap();
    if !matches_at(&v, k, &pat_qa) {
        proof {
            assert forall|id: nat, tool: Seq<char>, args: Seq<char>|
                !(id <= u64::MAX && lv == request_line_spec(
                    id,
                    "tools/call"@,
                    call_params_spec(tool, args),
                )) by {
                if id <= u64::MAX && lv == request_line_spec(
                    id,
                    "tools/call"@,
                    call_params_spec(tool, args),
                ) {
                    lemma_call_request_shape(lv, id, tool, args);
                    let e = escape_spec(tool).len() as int;
                    if (k as int) < q0 + e {
                        assert(lv[k as int] != '"');
                    }
                    if (k as int) > q0 + e {
                        assert(lv[q0 + e] != '"');
                    }
                    assert(k as int == q0 + e);
                }
            }
        }
        return Err(IpcFault::Malformed);
    }
    let a0 = k + 14;
    if n - a0 < 2 {
        proof {
            assert forall|id: nat, tool: Seq<char>, args: Seq<char>|
                !(id <= u64::MAX && lv == request_line_spec(
                    id,
                    "tools/call"@,
                    call_params_spec(tool, args),
                )) by {
                if id <= u64::MAX && lv == request_line_spec(
                    id,
                    "tools/call"@,
                    call_params_spec(tool, args),
                ) {
                    lemma_call_request_shape(lv, id, tool, args);
                    let e = escape_spec(tool).len() as int;
                    if (k as int) < q0 + e {
                        assert(lv[k as int] != '"');
                    }
                    if (k as int) > q0 + e {
                        assert(lv[q0 + e] != '"');
                    }
                    assert(k as int == q0 + e);
                }
            }
        }
        return Err(IpcFault::Malformed);
    }
    if !matches_at(&v, n - 2, &pat_rbb) {
        proof {
            assert forall|id: nat, tool: Seq<char>, args: Seq<char>|
                !(id <= u64::MAX && lv == request_line_spec(
                    id,
                    "tools/call"@,
                    call_params_spec(tool, args),
                )) by {
                if id <= u64::MAX && lv == request_line_spec(
                    id,
                    "tools/call"@,
                    call_params_spec(tool, args),
                ) {
                    lemma_call_request_shape(lv, id, tool, args);
                }
            }
        }
        return Err(IpcFault::Malformed);
    }
    let args_text = subrange_to_string(&v, a0, n - 2);
    let tool_text = chars_to_string(&tool_chars);
    proof {
        assert forall|id: nat, tool: Seq<char>, args: Seq<char>|
            id <= u64::MAX && lv == request_line_spec(
                id,
                "tools/call"@,
                call_params_spec(tool, args),
            ) implies idv as nat == id && tool_text@ == tool && args_text@ == args by {
            lemma_call_request_shape(lv, id, tool, args);
            let e = escape_spec(tool).len() as int;
            if (k as int) < q0 + e {
                assert(lv[k as int] != '"');
            }
            if (k as int) > q0 + e {
                assert(lv[q0 + e] != '"');
            }
            assert(k as int == q0 + e);
            assert(raw@ == escape_spec(tool));
            lemma_unescape_escape(tool);
        }
    }
    Ok(IpcRequest::Call { id: idv, tool: tool_text, args: args_text })
}

/// Everything the parser needs of a request line whose method is any
/// quote-free text: where the method stands, that its region holds no quote,
/// and that the quote right after it closes the method field.
#[verifier::rlimit(60)]
#[verifier::spinoff_prover]
proof fn lemma_any_request_shape(lv: Seq<char>, id: nat, m: Seq<char>, params: Seq<char>)
    requires
        lv == request_line_spec(id, m, params),
        forall|j: int| 0 <= j < m.len() ==> m[j] != '"',
    ensures
        lv.subrange(0, 22) == "{\"jsonrpc\":\"2.0\",\"id\":"@,
        dec_digits(id).len() >= 1,
        digit_run_end(lv, 22) == 22 + dec_digits(id).len(),
        parse_digits(lv.subrange(22, 22 + dec_digits(id).len() as int)) == id,
        lv.subrange(
            22 + dec_digits(id).len() as int,
            22 + dec_digits(id).len() + 11int,
        ) == ",\"method\":\""@,
        lv.subrange(
            22 + dec_digits(id).len() + 11int,
            22 + dec_digits(id).len() + 11 + m.len() as int,
        ) == m,
        forall|j: int|
            22 + dec_digits(id).len() + 11 <= j < 22 + dec_digits(id).len() + 11 + m.len()
                ==> #[trigger] lv[j] != '"',
        lv[22 + dec_digits(id).len() + 11 + m.len() as int] == '"',
        lv.len() == 22 + dec_digits(id).len() + 11 + m.len() + 11 + params.len() + 1int,
{
    reveal_strlit("{\"jsonrpc\":\"2.0\",\"id\":");
    reveal_strlit(",\"method\":\"");
    reveal_strlit("\",\"params\":");
    reveal_strlit("}");
    assert(lv.skip(0) =~= lv);
    lemma_peel(lv, 0, "{\"jsonrpc\":\"2.0\",\"id\":"@, dec_digits(id) + (",\"method\":\""@ + (m + (
    "\",\"params\":"@ + (params + "}"@)))));
    lemma_digit_run_at(lv, 22, id, ",\"method\":\""@ + (m + ("\",\"params\":"@ + (params
        + "}"@))));
    let mp = 22 + dec_digits(id).len() as int;
    lemma_peel(lv, mp, ",\"method\":\""@, m + ("\",\"params\":"@ + (params + "}"@)));
    lemma_peel(lv, mp + 11, m, "\",\"params\":"@ + (params + "}"@));
    lemma_peel(lv, mp + 11 + m.len() as int, "\",\"params\":"@, params + "}"@);
    assert forall|j: int| mp + 11 <= j < mp + 11 + m.len() implies #[trigger] lv[j] != '"' by {
        assert(lv[mp + 11 + (j - mp - 11)] == m[j - mp - 11]);
    }
    assert(lv[mp + 11 + m.len()] == "\",\"params\":"@[0]) by {
        assert(lv.skip(mp + 11 + m.len() as int)[0] == lv[mp + 11 + m.len()]);
    }
}

/// The two served method names hold no quote, so the first quote after the
/// method field is always its closing quote.
proof fn lemma_method_lits_quote_free()
    ensures
        forall|j: int| 0 <= j < 10 ==> #[trigger] "tools/call"@[j] != '"',
        forall|j: int| 0 <= j < 10 ==> #[trigger] "tools/list"@[j] != '"',
        "tools/call"@.len() == 10,
        "tools/list"@.len() == 10,
{
    reveal_strlit("tools/call");
    reveal_strlit("tools/list");
}

/// Read one request line as the daemon does. On exactly the lines the IPC
/// client builds, the parsed request carries the same id, tool and raw
/// arguments that were written; a well-formed request with any other
/// (quote-free) method is reported under its own name and id; anything else
/// is malformed.
#[verifier::rlimit(100)]
#[verifier::spinoff_prover]
pub fn parse_ipc_request(line: &str) -> (r: Result<IpcRequest, IpcFault>)
    ensures
        forall|id: nat, tool: Seq<char>, args: Seq<char>|
            id <= u64::MAX && line@ == request_line_spec(
                id,
                "tools/call"@,
                call_params_spec(tool, args),
            ) ==> (r matches Ok(IpcRequest::Call { id: rid, tool: rtool, args: rargs }) && rid
                as nat == id && rtool@ == tool && rargs@ == args),
        forall|id: nat|
            id <= u64::MAX && line@ == request_line_spec(id, "tools/list"@, "{}"@) ==> (r matches
                Ok(IpcRequest::List { id: rid }) && rid as nat == id),
        forall|id: nat, m: Seq<char>, params: Seq<char>|
            id <= u64::MAX && line@ == #[trigger] request_line_spec(id, m, params) && (forall|
                j: int,
            | 0 <= j < m.len() ==> m[j] != '"') && m != "tools/call"@ && m != "tools/list"@ ==> (
            r matches Err(IpcFault::UnknownMethod { id: rid, method: rm }) && rid as nat == id
                && rm@ == m),
{
    let v = str_to_chars(line);
    let n = v.len();
    let pre = str_to_chars("{\"jsonrpc\":\"2.0\",\"id\":");
    let pat_mth = str_to_chars(",\"method\":\"");
    let pat_tcall = str_to_chars("tools/call");
    let pat_tlist = str_to_chars("tools/list");
    let pat_prm = str_to_chars("\",\"params\":");
    let pat_end3 = str_to_chars("{}}");
    let ghost lv = line@;
    proof {
        reveal_strlit("{\"jsonrpc\":\"2.0\",\"id\":");
        reveal_strlit(",\"method\":\"");
        reveal_strlit("tools/call");
        reveal_strlit("tools/list");
        reveal_strlit("\",\"params\":");
        reveal_strlit("{}}");
        reveal_strlit("{}");
        lemma_method_lits_quote_free();
    }
    if !matches_at(&v, 0, &pre) {
        proof {
            assert forall|id: nat, m: Seq<char>, params: Seq<char>|
                !(id <= u64::MAX && lv == #[trigger] request_line_spec(id, m, params) && (forall|
                    j: int,
                | 0 <= j < m.len() ==> m[j] != '"')) by {
                if id <= u64::MAX && lv == request_line_spec(id, m, params) && (forall|j: int|
                    0 <= j < m.len() ==> m[j] != '"') {
                    lemma_any_request_shape(lv, id, m, params);
                }
            }
        }
        return Err(IpcFault::Malformed);
    }
    let scanned = scan_u64(&v, pre.len());
    if scanned.is_none() {
        proof {
            assert forall|id: nat, m: Seq<char>, params: Seq<char>|
                !(id <= u64::MAX && lv == #[trigger] request_line_spec(id, m, params) && (forall|
                    j: int,
                | 0 <= j < m.len() ==> m[j] != '"')) by {
                if id <= u64::MAX && lv == request_line_spec(id, m, params) && (forall|j: int|
                    0 <= j < m.len() ==> m[j] != '"') {
                    lemma_any_request_shape(lv, id, m, params);
                }
            }
        }
        return Err(IpcFault::Malformed);
    }
    let (idv, pos) = scanned.unwrap();
    proof {
        lemma_run_prefix_digits(v@, 22, digit_run_end(v@, 22));
    }
    if !matches_at(&v, pos, &pat_mth) {
        proof {
            assert forall|id: nat, m: Seq<char>, params: Seq<char>|
                !(id <= u64::MAX && lv == #[trigger] request_line_spec(id, m, params) && (forall|
                    j: int,
                | 0 <= j < m.len() ==> m[j] != '"')) by {
                if id <= u64::MAX && lv == request_line_spec(id, m, params) && (forall|j: int|
                    0 <= j < m.len() ==> m[j] != '"') {
                    lemma_any_request_shape(lv, id, m, params);
                }
            }
        }
        return Err(IpcFault::Malformed);
    }
    let t0 = pos + pat_mth.len();
    let found_m = find_quote(&v, t0);
    if found_m.is_none() {
        proof {
            assert forall|id: nat, m: Seq<char>, params: Seq<char>|
                !(id <= u64::MAX && lv == #[trigger] request_line_spec(id, m, params) && (forall|
                    j: int,
                | 0 <= j < m.len() ==> m[j] != '"')) by {
                if id <= u64::MAX && lv == request_line_spec(id, m, params) && (forall|j: int|
                    0 <= j < m.len() ==> m[j] != '"') {
                    lemma_any_request_shape(lv, id, m, params);
                    assert(v@[22 + dec_digits(id).len() + 11 + m.len() as int] == '"');
                }
            }
        }
        return Err(IpcFault::Malformed);
    }
    let me = found_m.unwrap();
    proof {
        // Under any well-formed-line reading, the first quote after the
        // method's opening quote is the method's closing quote.
        assert forall|id: nat, m: Seq<char>, params: Seq<char>|
            id <= u64::MAX && lv == #[trigger] request_line_spec(id, m, params) && (forall|j: int|
                0 <= j < m.len() ==> m[j] != '"') implies idv as nat == id && t0 as int == 22
            + dec_digits(id).len() + 11 && me as int == t0 + m.len() && lv.subrange(
            t0 as int,
            me as int,
        ) == m by {
            lemma_any_request_shape(lv, id, m, params);
            let endm = 22 + dec_digits(id).len() + 11 + m.len() as int;
            if (me as int) < endm {
                assert(lv[me as int] != '"');
            }
            if (me as int) > endm {
                assert(lv[endm] != '"');
            }
            assert(me as int == endm);
        }
    }
    if matches_at(&v, t0, &pat_tcall) && me == t0 + 10 {
        proof {
            assert forall|id: nat|
                !(id <= u64::MAX && lv == request_line_spec(id, "tools/list"@, "{}"@)) by {
                if id <= u64::MAX && lv == request_line_spec(id, "tools/list"@, "{}"@) {
                    lemma_list_request_shape(lv, id);
                    assert(lv.subrange(t0 as int, t0 + 10)[6] == 'c');
                    assert(lv.subrange(
                        22 + dec_digits(id).len() + 11int,
                        22 + dec_digits(id).len() + 21int,
                    )[6] == 'l');
                }
            }
            assert forall|id: nat, m: Seq<char>, params: Seq<char>|
                !(id <= u64::MAX && lv == #[trigger] request_line_spec(id, m, params) && (forall|
                    j: int,
                | 0 <= j < m.len() ==> m[j] != '"') && m != "tools/call"@ && m
                    != "tools/list"@) by {
                if id <= u64::MAX && lv == request_line_spec(id, m, params) && (forall|j: int|
                    0 <= j < m.len() ==> m[j] != '"') && m != "tools/call"@ && m
                    != "tools/list"@ {
                    assert(m =~= lv.subrange(t0 as int, t0 + 10));
                    assert(m =~= "tools/call"@);
                }
            }
            assert forall|id: nat, tool: Seq<char>, args: Seq<char>|
                id <= u64::MAX && lv == #[trigger] request_line_spec(
                    id,
                    "tools/call"@,
                    call_params_spec(tool, args),
                ) implies idv as nat == id && pos as int == 22 + dec_digits(id).len() by {
                lemma_call_request_shape(lv, id, tool, args);
            }
        }
        parse_call_branch(&v, idv, pos)
    } else if matches_at(&v, t0, &pat_tlist) && me == t0 + 10 {
        proof {
            assert forall|id: nat, tool: Seq<char>, args: Seq<char>|
                !(id <= u64::MAX && lv == request_line_spec(
                    id,
                    "tools/call"@,
                    call_params_spec(tool, args),
                )) by {
                if id <= u64::MAX && lv == request_line_spec(
                    id,
                    "tools/call"@,
                    call_params_spec(tool, args),
                ) {
                    lemma_call_request_shape(lv, id, tool, args);
                    assert(lv.subrange(t0 as int, t0 + 10)[6] == 'l');
                    assert(lv.subrange(
                        22 + dec_digits(id).len() + 11int,
                        22 + dec_digits(id).len() + 21int,
                    )[6] == 'c');
                }
            }
            assert forall|id: nat, m: Seq<char>, params: Seq<char>|
                !(id <= u64::MAX && lv == #[trigger] request_line_spec(id, m, params) && (forall|
                    j: int,
                | 0 <= j < m.len() ==> m[j] != '"') && m != "tools/call"@ && m
                    != "tools/list"@) by {
                if id <= u64::MAX && lv == request_line_spec(id, m, params) && (forall|j: int|
                    0 <= j < m.len() ==> m[j] != '"') && m != "tools/call"@ && m
                    != "tools/list"@ {
                    assert(m =~= lv.subrange(t0 as int, t0 + 10));
                    assert(m =~= "tools/list"@);
                }
            }
        }
        if !matches_at(&v, t0 + 10, &pat_prm) {
            proof {
                assert forall|id: nat|
                    !(id <= u64::MAX && lv == request_line_spec(id, "tools/list"@, "{}"@)) by {
                    if id <= u64::MAX && lv == request_line_spec(id, "tools/list"@, "{}"@) {
                        lemma_list_request_shape(lv, id);
                    }
                }
            }
            return Err(IpcFault::Malformed);
        }
        if !matches_at(&v, t0 + 21, &pat_end3) {
            proof {
                assert forall|id: nat|
                    !(id <= u64::MAX && lv == request_line_spec(id, "tools/list"@, "{}"@)) by {
                    if id <= u64::MAX && lv == request_line_spec(id, "tools/list"@, "{}"@) {
                        lemma_list_request_shape(lv, id);
                    }
                }
            }
            return Err(IpcFault::Malformed);
        }
        if t0 + 24 != n {
            proof {
                assert forall|id: nat|
                    !(id <= u64::MAX && lv == request_line_spec(id, "tools/list"@, "{}"@)) by {
                    if id <= u64::MAX && lv == request_line_spec(id, "tools/list"@, "{}"@) {
                        lemma_list_request_shape(lv, id);
                    }
                }
            }
            return Err(IpcFault::Malformed);
        }
        proof {
            assert forall|id: nat|
                id <= u64::MAX && lv == request_line_spec(id, "tools/list"@, "{}"@) implies idv
                as nat == id by {
                lemma_list_request_shape(lv, id);
            }
        }
        Ok(IpcRequest::List { id: idv })
    } else {
        let method_text = subrange_to_string(&v, t0, me);
        proof {
            // Either served method would have taken its branch: its region
            // is the ten literal characters followed by the closing quote.
            assert forall|id: nat, tool: Seq<char>, args: Seq<char>|
                !(id <= u64::MAX && lv == request_line_spec(
                    id,
                    "tools/call"@,
                    call_params_spec(tool, args),
                )) by {
                if id <= u64::MAX && lv == request_line_spec(
                    id,
                    "tools/call"@,
                    call_params_spec(tool, args),
                ) {
                    lemma_call_request_shape(lv, id, tool, args);
                    assert(lv.subrange(t0 as int, t0 + 10) =~= "tools/call"@);
                }
            }
            assert forall|id: nat|
                !(id <= u64::MAX && lv == request_line_spec(id, "tools/list"@, "{}"@)) by {
                if id <= u64::MAX && lv == request_line_spec(id, "tools/list"@, "{}"@) {
                    lemma_list_request_shape(lv, id);
                    assert(lv.subrange(t0 as int, t0 + 10) =~= "tools/list"@);
                }
            }
            assert forall|id: nat, m: Seq<char>, params: Seq<char>|
                id <= u64::MAX && lv == #[trigger] request_line_spec(id, m, params) && (forall|
                    j: int,
                | 0 <= j < m.len() ==> m[j] != '"') && m != "tools/call"@ && m
                    != "tools/list"@ implies idv as nat == id && method_text@ == m by {
                lemma_any_request_shape(lv, id, m, params);
            }
        }
        Err(IpcFault::UnknownMethod { id: idv, method: method_text })
    }
}

} // verus!
