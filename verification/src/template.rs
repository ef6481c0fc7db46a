//! Template expansion for engine argument strings: one left-to-right pass
//! that substitutes the recognized placeholders `{profile_dir}`, `{pid}` and
//! `{cwd}`, leaves everything else (including unrecognized placeholders)
//! verbatim, and never re-expands what it has substituted.

use vstd::prelude::*;
use crate::text::{chars_to_string, matches_at, push_all, sanitize_spec, sanitize_server_name,
    str_to_chars};

verus! {

/// The per-engine profile directory: a fixed root joined with the sanitized
/// identifier, so a crafted identifier cannot escape the root.
pub open spec fn profile_dir_spec(name: Seq<char>) -> Seq<char> {
    ".mcp-profile/"@ + sanitize_spec(name)
}

/// The profile directory as text.
pub fn profile_dir_string(server_name: &str) -> (r: String)
    ensures
        r@ == profile_dir_spec(server_name@),
{
    let mut d = String::new();
    d.append(".mcp-profile/");
    let safe = sanitize_server_name(server_name);
    d.append(safe.as_str());
    d
}

/// One pass over the template, substituting each recognized placeholder
/// where it stands and copying every other character unchanged.
pub open spec fn expand_spec(t: Seq<char>, dir: Seq<char>, pid: Seq<char>, cwd: Seq<char>) -> Seq<
    char,
>
    decreases t.len(),
{
    if t.len() == 0 {
        Seq::empty()
    } else if t.len() >= 13 && t.subrange(0, 13) == "{profile_dir}"@ {
        dir + expand_spec(t.skip(13), dir, pid, cwd)
    } else if t.len() >= 5 && t.subrange(0, 5) == "{pid}"@ {
        pid + expand_spec(t.skip(5), dir, pid, cwd)
    } else if t.len() >= 5 && t.subrange(0, 5) == "{cwd}"@ {
        cwd + expand_spec(t.skip(5), dir, pid, cwd)
    } else {
        seq![t[0]] + expand_spec(t.skip(1), dir, pid, cwd)
    }
}

/// Expand the placeholders of `template` for `server_name`, with the calling
/// process's id and working directory supplied as plain text.
pub fn expand_template_vars(template: &str, server_name: &str, pid: &str, cwd: &str) -> (r: String)
    ensures
        r@ == expand_spec(template@, profile_dir_spec(server_name@), pid@, cwd@),
{
    proof {
        reveal_strlit("{profile_dir}");
        reveal_strlit("{pid}");
        reveal_strlit("{cwd}");
    }
    let dir_string = profile_dir_string(server_name);
    let dir = str_to_chars(dir_string.as_str());
    let pid_chars = str_to_chars(pid);
    let cwd_chars = str_to_chars(cwd);
    let pat_dir = str_to_chars("{profile_dir}");
    let pat_pid = str_to_chars("{pid}");
    let pat_cwd = str_to_chars("{cwd}");
    let t = str_to_chars(template);
    let ghost dirv = profile_dir_spec(server_name@);
    let mut out: Vec<char> = Vec::new();
    let mut i: usize = 0;
    proof {
        assert(t@.skip(0) =~= t@);
        assert(out@ + expand_spec(t@.skip(0), dirv, pid@, cwd@) =~= expand_spec(
            t@,
            dirv,
            pid@,
            cwd@,
        ));
    }
    while i < t.len()
        invariant
            i <= t@.len(),
            t@ == template@,
            dir@ == dirv,
            pid_chars@ == pid@,
            cwd_chars@ == cwd@,
            pat_dir@ == "{profile_dir}"@,
            pat_pid@ == "{pid}"@,
            pat_cwd@ == "{cwd}"@,
            pat_dir@.len() == 13,
            pat_pid@.len() == 5,
            pat_cwd@.len() == 5,
            expand_spec(t@, dirv, pid@, cwd@) == out@ + expand_spec(
                t@.skip(i as int),
                dirv,
                pid@,
                cwd@,
            ),
        decreases t@.len() - i,
    {
        let ghost rest = t@.skip(i as int);
        let ghost out0 = out@;
        proof {
            assert(rest.len() == t@.len() - i);
        }
        if matches_at(&t, i, &pat_dir) {
            proof {
                assert(rest.subrange(0, 13) =~= t@.subrange(i as int, i as int + 13));
                assert(rest.len() >= 13 && rest.subrange(0, 13) == "{profile_dir}"@);
                assert(rest.skip(13) =~= t@.skip(i as int + 13));
            }
            push_all(&mut out, &dir);
            proof {
                assert(out0 + (dirv + expand_spec(t@.skip(i as int + 13), dirv, pid@, cwd@)) =~= (
                out0 + dirv) + expand_spec(t@.skip(i as int + 13), dirv, pid@, cwd@));
            }
            i = i + 13;
        } else if matches_at(&t, i, &pat_pid) {
            proof {
                assert(!(rest.len() >= 13 && rest.subrange(0, 13) == "{profile_dir}"@)) by {
                    if rest.len() >= 13 {
                        assert(rest.subrange(0, 13) =~= t@.subrange(i as int, i as int + 13));
                    }
                }
                assert(rest.subrange(0, 5) =~= t@.subrange(i as int, i as int + 5));
                assert(rest.len() >= 5 && rest.subrange(0, 5) == "{pid}"@);
                assert(rest.skip(5) =~= t@.skip(i as int + 5));
            }
            push_all(&mut out, &pid_chars);
            proof {
                assert(out0 + (pid@ + expand_spec(t@.skip(i as int + 5), dirv, pid@, cwd@)) =~= (
                out0 + pid@) + expand_spec(t@.skip(i as int + 5), dirv, pid@, cwd@));
            }
            i = i + 5;
        } else if matches_at(&t, i, &pat_cwd) {
            proof {
                assert(!(rest.len() >= 13 && rest.subrange(0, 13) == "{profile_dir}"@)) by {
                    if rest.len() >= 13 {
                        assert(rest.subrange(0, 13) =~= t@.subrange(i as int, i as int + 13));
                    }
                }
                assert(!(rest.subrange(0, 5) == "{pid}"@)) by {
                    assert(rest.subrange(0, 5) =~= t@.subrange(i as int, i as int + 5));
                }
                assert(rest.subrange(0, 5) =~= t@.subrange(i as int, i as int + 5));
                assert(rest.len() >= 5 && rest.subrange(0, 5) == "{cwd}"@);
                assert(rest.skip(5) =~= t@.skip(i as int + 5));
            }
            push_all(&mut out, &cwd_chars);
            proof {
                assert(out0 + (cwd@ + expand_spec(t@.skip(i as int + 5), dirv, pid@, cwd@)) =~= (
                out0 + cwd@) + expand_spec(t@.skip(i as int + 5), dirv, pid@, cwd@));
            }
            i = i + 5;
        } else {
            proof {
                assert(!(rest.len() >= 13 && rest.subrange(0, 13) == "{profile_dir}"@)) by {
                    if rest.len() >= 13 {
                        assert(rest.subrange(0, 13) =~= t@.subrange(i as int, i as int + 13));
                    }
                }
                assert(!(rest.len() >= 5 && rest.subrange(0, 5) == "{pid}"@)) by {
                    if rest.len() >= 5 {
                        assert(rest.subrange(0, 5) =~= t@.subrange(i as int, i as int + 5));
                    }
                }
                assert(!(rest.len() >= 5 && rest.subrange(0, 5) == "{cwd}"@)) by {
                    if rest.len() >= 5 {
                        assert(rest.subrange(0, 5) =~= t@.subrange(i as int, i as int + 5));
                    }
                }
                assert(rest[0] == t@[i as int]);
                assert(rest.skip(1) =~= t@.skip(i as int + 1));
            }
            out.push(t[i]);
            proof {
                assert(out@ =~= out0 + seq![t@[i as int]]);
                assert(out0 + (seq![t@[i as int]] + expand_spec(
                    t@.skip(i as int + 1),
                    dirv,
                    pid@,
                    cwd@,
                )) =~= (out0 + seq![t@[i as int]]) + expand_spec(
                    t@.skip(i as int + 1),
                    dirv,
                    pid@,
                    cwd@,
                ));
            }
            i = i + 1;
        }
    }
    proof {
        assert(t@.skip(t@.len() as int) =~= Seq::<char>::empty());
        assert(out@ + Seq::<char>::empty() =~= out@);
    }
    chars_to_string(&out)
}

/// `pat` occurs in `t` at position `j`.
pub open spec fn occurs_at(t: Seq<char>, pat: Seq<char>, j: int) -> bool {
    0 <= j && j + pat.len() <= t.len() && t.subrange(j, j + pat.len()) == pat
}

/// Some recognized placeholder occurs somewhere in `t`.
pub open spec fn has_placeholder(t: Seq<char>) -> bool {
    exists|j: int|
        occurs_at(t, "{profile_dir}"@, j) || occurs_at(t, "{pid}"@, j) || occurs_at(t, "{cwd}"@, j)
}

/// Law: expansion is a no-op on a template that holds no recognized
/// placeholder.
pub proof fn lemma_expand_no_placeholder(t: Seq<char>, dir: Seq<char>, pid: Seq<char>, cwd: Seq<
    char,
>)
    requires
        !has_placeholder(t),
    ensures
        expand_spec(t, dir, pid, cwd) == t,
    decreases t.len(),
{
    reveal_strlit("{profile_dir}");
    reveal_strlit("{pid}");
    reveal_strlit("{cwd}");
    if t.len() == 0 {
        assert(expand_spec(t, dir, pid, cwd) =~= t);
    } else {
        if t.len() >= 13 && t.subrange(0, 13) == "{profile_dir}"@ {
            assert(occurs_at(t, "{profile_dir}"@, 0));
            assert(false);
        }
        if t.len() >= 5 && t.subrange(0, 5) == "{pid}"@ {
            assert(occurs_at(t, "{pid}"@, 0));
            assert(false);
        }
        if t.len() >= 5 && t.subrange(0, 5) == "{cwd}"@ {
            assert(occurs_at(t, "{cwd}"@, 0));
            assert(false);
        }
        assert(!has_placeholder(t.skip(1))) by {
            if has_placeholder(t.skip(1)) {
                let j = choose|j: int|
                    occurs_at(t.skip(1), "{profile_dir}"@, j) || occurs_at(t.skip(1), "{pid}"@, j)
                        || occurs_at(t.skip(1), "{cwd}"@, j);
                if occurs_at(t.skip(1), "{profile_dir}"@, j) {
                    assert(t.subrange(j + 1, j + 1 + 13) =~= t.skip(1).subrange(j, j + 13));
                    assert(occurs_at(t, "{profile_dir}"@, j + 1));
                } else if occurs_at(t.skip(1), "{pid}"@, j) {
                    assert(t.subrange(j + 1, j + 1 + 5) =~= t.skip(1).subrange(j, j + 5));
                    assert(occurs_at(t, "{pid}"@, j + 1));
                } else {
                    assert(t.subrange(j + 1, j + 1 + 5) =~= t.skip(1).subrange(j, j + 5));
                    assert(occurs_at(t, "{cwd}"@, j + 1));
                }
                assert(false);
            }
        }
        lemma_expand_no_placeholder(t.skip(1), dir, pid, cwd);
        assert(seq![t[0]] + t.skip(1) =~= t);
    }
}


/// One of the three recognized placeholders together with its substitution.
pub open spec fn placeholder_pair(
    pat: Seq<char>,
    sub: Seq<char>,
    dir: Seq<char>,
    pid: Seq<char>,
    cwd: Seq<char>,
) -> bool {
    (pat == "{profile_dir}"@ && sub == dir) || (pat == "{pid}"@ && sub == pid) || (pat == "{cwd}"@
        && sub == cwd)
}

/// No recognized placeholder holds a brace after its first character, so a
/// placeholder occurrence can never straddle the boundary of another.
proof fn lemma_no_interior_brace(i: int)
    ensures
        1 <= i < 13 ==> "{profile_dir}"@[i] != '{',
        1 <= i < 5 ==> "{pid}"@[i] != '{',
        1 <= i < 5 ==> "{cwd}"@[i] != '{',
{
    reveal_strlit("{profile_dir}");
    reveal_strlit("{pid}");
    reveal_strlit("{cwd}");
}

/// Law: expansion substitutes a recognized placeholder wherever it stands,
/// independently of what surrounds it and of the order of placeholders in
/// the template: expanding `a + pat + b` expands `a`, substitutes `pat`, and
/// expands `b`, for every split.
#[verifier::rlimit(100)]
pub proof fn lemma_expand_is_local(
    a: Seq<char>,
    pat: Seq<char>,
    sub: Seq<char>,
    b: Seq<char>,
    dir: Seq<char>,
    pid: Seq<char>,
    cwd: Seq<char>,
)
    requires
        placeholder_pair(pat, sub, dir, pid, cwd),
    ensures
        expand_spec(a + pat + b, dir, pid, cwd) == expand_spec(a, dir, pid, cwd) + sub
            + expand_spec(b, dir, pid, cwd),
    decreases a.len(),
{
    reveal_strlit("{profile_dir}");
    reveal_strlit("{pid}");
    reveal_strlit("{cwd}");
    assert("{pid}"@[1] == 'p' && "{cwd}"@[1] == 'c' && "{profile_dir}"@[1] == 'p');
    assert("{pid}"@[2] == 'i' && "{cwd}"@[2] == 'w' && "{profile_dir}"@[2] == 'r');
    assert("{profile_dir}"@.len() == 13 && "{pid}"@.len() == 5 && "{cwd}"@.len() == 5);
    let t = a + pat + b;
    if a.len() == 0 {
        assert(t =~= pat + b);
        if pat == "{profile_dir}"@ {
            assert(t.subrange(0, 13) =~= pat);
            assert(t.skip(13) =~= b);
            assert(expand_spec(t, dir, pid, cwd) == dir + expand_spec(b, dir, pid, cwd));
            assert(sub == dir);
            assert(expand_spec(a, dir, pid, cwd) == Seq::<char>::empty());
        } else if pat == "{pid}"@ {
            assert(t.subrange(0, 5) =~= pat);
            if t.len() >= 13 {
                assert(t.subrange(0, 13)[2] == 'i');
                assert(t.subrange(0, 13) != "{profile_dir}"@);
            }
            assert(t.skip(5) =~= b);
            assert(expand_spec(t, dir, pid, cwd) == pid + expand_spec(b, dir, pid, cwd));
            assert(sub == pid);
            assert(expand_spec(a, dir, pid, cwd) == Seq::<char>::empty());
        } else {
            assert(t.subrange(0, 5) =~= pat);
            if t.len() >= 13 {
                assert(t.subrange(0, 13)[2] == 'w');
                assert(t.subrange(0, 13) != "{profile_dir}"@);
            }
            assert(t.subrange(0, 5)[1] == 'c');
            assert(t.subrange(0, 5) != "{pid}"@);
            assert(t.skip(5) =~= b);
            assert(pat == "{cwd}"@ && sub == cwd);
            assert(expand_spec(t, dir, pid, cwd) == cwd + expand_spec(b, dir, pid, cwd));
            assert(expand_spec(a, dir, pid, cwd) == Seq::<char>::empty());
        }
        assert(expand_spec(a, dir, pid, cwd) + sub + expand_spec(b, dir, pid, cwd) =~= sub
            + expand_spec(b, dir, pid, cwd));
        assert(expand_spec(t, dir, pid, cwd) == expand_spec(a, dir, pid, cwd) + sub + expand_spec(
            b,
            dir,
            pid,
            cwd,
        ));
    } else {
        // The template and its prefix `a` agree on every window that lies
        // inside `a`, and a window that would cross the boundary cannot be a
        // placeholder: it would need a brace in its interior.
        assert(t.len() == a.len() + pat.len() + b.len());
        assert(forall|i: int| 0 <= i < a.len() ==> t[i] == a[i]);
        assert(t[a.len() as int] == pat[0]);
        assert(pat[0] == '{');
        if a.len() >= 13 && a.subrange(0, 13) == "{profile_dir}"@ {
            assert(t.subrange(0, 13) =~= a.subrange(0, 13));
            lemma_expand_is_local(a.skip(13), pat, sub, b, dir, pid, cwd);
            assert(t.skip(13) =~= a.skip(13) + pat + b);
            assert(a.skip(13) + pat + b =~= (a.skip(13) + pat) + b);
            assert(dir + (expand_spec(a.skip(13), dir, pid, cwd) + sub + expand_spec(
                b,
                dir,
                pid,
                cwd,
            )) =~= (dir + expand_spec(a.skip(13), dir, pid, cwd)) + sub + expand_spec(
                b,
                dir,
                pid,
                cwd,
            ));
        } else {
            assert(!(t.len() >= 13 && t.subrange(0, 13) == "{profile_dir}"@)) by {
                if t.len() >= 13 && t.subrange(0, 13) == "{profile_dir}"@ {
                    if a.len() >= 13 {
                        assert(a.subrange(0, 13) =~= t.subrange(0, 13));
                    } else {
                        lemma_no_interior_brace(a.len() as int);
                        assert(t[a.len() as int] == "{profile_dir}"@[a.len() as int]);
                    }
                }
            }
            if a.len() >= 5 && a.subrange(0, 5) == "{pid}"@ {
                assert(t.subrange(0, 5) =~= a.subrange(0, 5));
                lemma_expand_is_local(a.skip(5), pat, sub, b, dir, pid, cwd);
                assert(t.skip(5) =~= a.skip(5) + pat + b);
                assert(a.skip(5) + pat + b =~= (a.skip(5) + pat) + b);
                assert(pid + (expand_spec(a.skip(5), dir, pid, cwd) + sub + expand_spec(
                    b,
                    dir,
                    pid,
                    cwd,
                )) =~= (pid + expand_spec(a.skip(5), dir, pid, cwd)) + sub + expand_spec(
                    b,
                    dir,
                    pid,
                    cwd,
                ));
            } else {
                assert(!(t.len() >= 5 && t.subrange(0, 5) == "{pid}"@)) by {
                    if t.len() >= 5 && t.subrange(0, 5) == "{pid}"@ {
                        if a.len() >= 5 {
                            assert(a.subrange(0, 5) =~= t.subrange(0, 5));
                        } else {
                            lemma_no_interior_brace(a.len() as int);
                            assert(t[a.len() as int] == "{pid}"@[a.len() as int]);
                        }
                    }
                }
                if a.len() >= 5 && a.subrange(0, 5) == "{cwd}"@ {
                    assert(t.subrange(0, 5) =~= a.subrange(0, 5));
                    lemma_expand_is_local(a.skip(5), pat, sub, b, dir, pid, cwd);
                    assert(t.skip(5) =~= a.skip(5) + pat + b);
                    assert(a.skip(5) + pat + b =~= (a.skip(5) + pat) + b);
                    assert(cwd + (expand_spec(a.skip(5), dir, pid, cwd) + sub + expand_spec(
                        b,
                        dir,
                        pid,
                        cwd,
                    )) =~= (cwd + expand_spec(a.skip(5), dir, pid, cwd)) + sub + expand_spec(
                        b,
                        dir,
                        pid,
                        cwd,
                    ));
                } else {
                    assert(!(t.len() >= 5 && t.subrange(0, 5) == "{cwd}"@)) by {
                        if t.len() >= 5 && t.subrange(0, 5) == "{cwd}"@ {
                            if a.len() >= 5 {
                                assert(a.subrange(0, 5) =~= t.subrange(0, 5));
                            } else {
                                lemma_no_interior_brace(a.len() as int);
                                assert(t[a.len() as int] == "{cwd}"@[a.len() as int]);
                            }
                        }
                    }
                    assert(t[0] == a[0]);
                    lemma_expand_is_local(a.skip(1), pat, sub, b, dir, pid, cwd);
                    assert(t.skip(1) =~= a.skip(1) + pat + b);
                    assert(a.skip(1) + pat + b =~= (a.skip(1) + pat) + b);
                    assert(seq![a[0]] + (expand_spec(a.skip(1), dir, pid, cwd) + sub + expand_spec(
                        b,
                        dir,
                        pid,
                        cwd,
                    )) =~= (seq![a[0]] + expand_spec(a.skip(1), dir, pid, cwd)) + sub
                        + expand_spec(b, dir, pid, cwd));
                }
            }
        }
    }
}

} // verus!
