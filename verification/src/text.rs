//! Character-level text utilities: conversion between `&str`/`String` and
//! `Vec<char>`, identifier sanitizing, and matching helpers shared by the
//! template expander and the envelope codec.

use vstd::prelude::*;
use vstd::string::*;

verus! {

/// A character that may appear in a filesystem-safe identifier:
/// ASCII alphanumeric, hyphen or underscore.
pub open spec fn is_safe_char(c: char) -> bool {
    ('a' <= c && c <= 'z') || ('A' <= c && c <= 'Z') || ('0' <= c && c <= '9') || c == '-'
        || c == '_'
}

/// What sanitizing keeps: exactly the safe characters, in order.
pub open spec fn sanitize_spec(s: Seq<char>) -> Seq<char> {
    s.filter(|c: char| is_safe_char(c))
}

/// Every `char` value is a Unicode scalar value; this makes its code-point
/// bounds and the exactness of its casts available for a character that was
/// read out of a sequence.
pub proof fn lemma_char_code(c: char)
    ensures
        0 <= c as int,
        c as int <= 0x10FFFF,
        c as u32 as int == c as int,
        (c as int) < 256 ==> ((c as nat) as char) == c,
{
    vstd::utf8::char_is_scalar(c);
    vstd::utf8::char_u32_cast(c, c as u32);
}

/// Collect the characters of a string slice into a vector.
pub fn str_to_chars(s: &str) -> (r: Vec<char>)
    ensures
        r@ == s@,
{
    let n = s.unicode_len();
    let mut r: Vec<char> = Vec::new();
    let mut i: usize = 0;
    while i < n
        invariant
            i <= n,
            n == s@.len(),
            r@ == s@.subrange(0, i as int),
        decreases n - i,
    {
        let c = s.get_char(i);
        r.push(c);
        i = i + 1;
        proof {
            assert(r@ =~= s@.subrange(0, i as int));
        }
    }
    proof {
        assert(r@ =~= s@);
    }
    r
}

/// Relies on `String`'s `FromIterator` over characters (`Iterator::collect`):
/// the resulting string holds exactly the characters of `v`, in order.
#[verifier::external_body]
pub fn chars_to_string(v: &Vec<char>) -> (r: String)
    ensures
        r@ == v@,
{
    v.iter().collect()
}

proof fn lemma_sanitize_step(s: Seq<char>, i: int)
    requires
        0 <= i < s.len(),
    ensures
        sanitize_spec(s.subrange(0, i + 1)) == if is_safe_char(s[i]) {
            sanitize_spec(s.subrange(0, i)).push(s[i])
        } else {
            sanitize_spec(s.subrange(0, i))
        },
{
    reveal(Seq::filter);
    let t = s.subrange(0, i + 1);
    assert(t.drop_last() =~= s.subrange(0, i));
    assert(t.last() == s[i]);
}

proof fn lemma_sanitize_empty()
    ensures
        sanitize_spec(Seq::<char>::empty()) == Seq::<char>::empty(),
{
    reveal(Seq::filter);
}

/// Keep only ASCII alphanumerics, hyphens and underscores of an identifier,
/// so that it is safe to use as a path component.
pub fn sanitize_server_name(name: &str) -> (r: String)
    ensures
        r@ == sanitize_spec(name@),
{
    let chars = str_to_chars(name);
    let mut out: Vec<char> = Vec::new();
    let mut i: usize = 0;
    proof {
        lemma_sanitize_empty();
        assert(name@.subrange(0, 0) =~= Seq::<char>::empty());
    }
    while i < chars.len()
        invariant
            i <= chars@.len(),
            chars@ == name@,
            out@ == sanitize_spec(name@.subrange(0, i as int)),
        decreases chars@.len() - i,
    {
        let c = chars[i];
        let keep = ('a' <= c && c <= 'z') || ('A' <= c && c <= 'Z') || ('0' <= c && c <= '9')
            || c == '-' || c == '_';
        if keep {
            out.push(c);
        }
        proof {
            lemma_sanitize_step(name@, i as int);
        }
        i = i + 1;
    }
    proof {
        assert(name@.subrange(0, name@.len() as int) =~= name@);
    }
    chars_to_string(&out)
}

/// Law: every character of a sanitized identifier is ASCII alphanumeric,
/// a hyphen or an underscore; in particular no path-separator character
/// survives sanitizing.
pub proof fn lemma_sanitize_only_safe_chars(s: Seq<char>)
    ensures
        forall|i: int|
            0 <= i < sanitize_spec(s).len() ==> is_safe_char(#[trigger] sanitize_spec(s)[i]),
        forall|i: int|
            0 <= i < sanitize_spec(s).len() ==> #[trigger] sanitize_spec(s)[i] != '/'
                && sanitize_spec(s)[i] != '\\',
{
    let pred = |c: char| is_safe_char(c);
    assert forall|i: int| 0 <= i < sanitize_spec(s).len() implies is_safe_char(
        #[trigger] sanitize_spec(s)[i],
    ) by {
        s.lemma_filter_pred(pred, i);
    }
}


/// Append all characters of `src` to `out`.
pub fn push_all(out: &mut Vec<char>, src: &Vec<char>)
    ensures
        final(out)@ == old(out)@ + src@,
{
    let ghost prefix = out@;
    let mut j: usize = 0;
    while j < src.len()
        invariant
            j <= src@.len(),
            out@ == prefix + src@.subrange(0, j as int),
        decreases src@.len() - j,
    {
        out.push(src[j]);
        proof {
            assert(out@ =~= prefix + src@.subrange(0, j + 1));
        }
        j = j + 1;
    }
    proof {
        assert(src@.subrange(0, src@.len() as int) =~= src@);
    }
}

/// Does `pat` stand in `v` at position `i`?
pub fn matches_at(v: &Vec<char>, i: usize, pat: &Vec<char>) -> (b: bool)
    requires
        i <= v@.len(),
    ensures
        b == (i + pat@.len() <= v@.len() && v@.subrange(
            i as int,
            i as int + pat@.len() as int,
        ) == pat@),
{
    if v.len() - i < pat.len() {
        return false;
    }
    let mut j: usize = 0;
    while j < pat.len()
        invariant
            j <= pat@.len(),
            i + pat@.len() <= v@.len(),
            v@.len() <= usize::MAX,
            forall|k: int| 0 <= k < j ==> v@[i + k] == pat@[k],
        decreases pat@.len() - j,
    {
        proof {
            assert(i + j < v@.len());
        }
        if v[i + j] != pat[j] {
            proof {
                assert(v@.subrange(i as int, i as int + pat@.len() as int)[j as int] != pat@[j as int]);
            }
            return false;
        }
        j = j + 1;
    }
    proof {
        assert(v@.subrange(i as int, i as int + pat@.len() as int) =~= pat@);
    }
    true
}


/// Find the first quote character at or after `from`.
pub fn find_quote(v: &Vec<char>, from: usize) -> (r: Option<usize>)
    requires
        from <= v@.len(),
    ensures
        match r {
            Some(k) => from <= k < v@.len() && v@[k as int] == '"' && (forall|j: int|
                from <= j < k ==> v@[j] != '"'),
            None => forall|j: int| from <= j < v@.len() ==> v@[j] != '"',
        },
{
    let mut k: usize = from;
    while k < v.len()
        invariant
            from <= k <= v@.len(),
            forall|j: int| from <= j < k ==> v@[j] != '"',
        decreases v@.len() - k,
    {
        if v[k] == '"' {
            return Some(k);
        }
        k = k + 1;
    }
    None
}

/// Copy out the characters of `v` between `from` and `to`.
pub fn subrange_to_vec(v: &Vec<char>, from: usize, to: usize) -> (r: Vec<char>)
    requires
        from <= to <= v@.len(),
    ensures
        r@ == v@.subrange(from as int, to as int),
{
    let mut r: Vec<char> = Vec::new();
    let mut k: usize = from;
    let n = v.len();
    while k < to
        invariant
            from <= k <= to <= v@.len(),
            n == v@.len(),
            r@ == v@.subrange(from as int, k as int),
        decreases to - k,
    {
        r.push(v[k]);
        proof {
            assert(r@ =~= v@.subrange(from as int, k + 1));
        }
        k = k + 1;
    }
    r
}

/// Copy out the text of `v` between `from` and `to`.
pub fn subrange_to_string(v: &Vec<char>, from: usize, to: usize) -> (r: String)
    requires
        from <= to <= v@.len(),
    ensures
        r@ == v@.subrange(from as int, to as int),
{
    let part = subrange_to_vec(v, from, to);
    chars_to_string(&part)
}

pub open spec fn is_ws(c: char) -> bool {
    c == ' ' || c == '\n' || c == '\r' || c == '\t'
}

/// Where the run of whitespace that starts at `from` ends.
pub open spec fn ws_run_end(s: Seq<char>, from: int) -> int
    decreases s.len() - from when 0 <= from <= s.len()
{
    if from < s.len() && is_ws(s[from]) {
        ws_run_end(s, from + 1)
    } else {
        from
    }
}

/// Where the run of whitespace that ends at `upto` starts.
pub open spec fn ws_suffix_start(s: Seq<char>, upto: int) -> int
    decreases upto when 0 <= upto <= s.len()
{
    if upto > 0 && is_ws(s[upto - 1]) {
        ws_suffix_start(s, upto - 1)
    } else {
        upto
    }
}

/// The text with leading and trailing whitespace removed.
pub open spec fn trim_spec(s: Seq<char>) -> Seq<char> {
    let a = ws_run_end(s, 0);
    let b = ws_suffix_start(s, s.len() as int);
    if a <= b {
        s.subrange(a, b)
    } else {
        Seq::empty()
    }
}

proof fn lemma_ws_run_bounds(s: Seq<char>, from: int)
    requires
        0 <= from <= s.len(),
    ensures
        from <= ws_run_end(s, from) <= s.len(),
        forall|i: int| from <= i < ws_run_end(s, from) ==> is_ws(#[trigger] s[i]),
        ws_run_end(s, from) == s.len() || !is_ws(s[ws_run_end(s, from)]),
    decreases s.len() - from,
{
    if from < s.len() && is_ws(s[from]) {
        lemma_ws_run_bounds(s, from + 1);
    }
}

proof fn lemma_ws_suffix_bounds(s: Seq<char>, upto: int)
    requires
        0 <= upto <= s.len(),
    ensures
        0 <= ws_suffix_start(s, upto) <= upto,
        forall|i: int| ws_suffix_start(s, upto) <= i < upto ==> is_ws(#[trigger] s[i]),
        ws_suffix_start(s, upto) == 0 || !is_ws(s[ws_suffix_start(s, upto) - 1]),
    decreases upto,
{
    if upto > 0 && is_ws(s[upto - 1]) {
        lemma_ws_suffix_bounds(s, upto - 1);
    }
}

/// Strip leading and trailing whitespace.
pub fn trim_chars(v: &Vec<char>) -> (r: Vec<char>)
    ensures
        r@ == trim_spec(v@),
{
    let n = v.len();
    let mut a: usize = 0;
    while a < n && (v[a] == ' ' || v[a] == '\n' || v[a] == '\r' || v[a] == '\t')
        invariant
            0 <= a <= n,
            n == v@.len(),
            forall|i: int| 0 <= i < a ==> is_ws(#[trigger] v@[i]),
        decreases n - a,
    {
        a = a + 1;
    }
    let mut b: usize = n;
    while b > a && (v[b - 1] == ' ' || v[b - 1] == '\n' || v[b - 1] == '\r' || v[b - 1] == '\t')
        invariant
            a <= b <= n,
            n == v@.len(),
            forall|i: int| 0 <= i < a ==> is_ws(#[trigger] v@[i]),
            forall|i: int| b <= i < n ==> is_ws(#[trigger] v@[i]),
        decreases b,
    {
        b = b - 1;
    }
    proof {
        lemma_ws_run_bounds(v@, 0);
        lemma_ws_suffix_bounds(v@, n as int);
        if a == b {
            // Everything is whitespace: the prefix run reaches the end and
            // the suffix run reaches the start, so the trimmed text is
            // empty either way.
            lemma_run_end_of_ws(v@, 0, n as int);
            lemma_suffix_start_of_ws(v@, n as int, 0);
            assert(trim_spec(v@) =~= v@.subrange(a as int, b as int));
        } else {
            assert(a < b);
            assert(!is_ws(v@[a as int]));
            assert(!is_ws(v@[b - 1]));
            lemma_run_end_of_ws(v@, 0, a as int);
            lemma_suffix_start_of_ws(v@, n as int, b as int);
            assert(trim_spec(v@) =~= v@.subrange(a as int, b as int));
        }
    }
    subrange_to_vec(v, a, b)
}

proof fn lemma_run_end_of_ws(s: Seq<char>, from: int, k: int)
    requires
        0 <= from <= k <= s.len(),
        forall|i: int| from <= i < k ==> is_ws(#[trigger] s[i]),
        k == s.len() || !is_ws(s[k]),
    ensures
        ws_run_end(s, from) == k,
    decreases k - from,
{
    if from < k {
        lemma_run_end_of_ws(s, from + 1, k);
    }
}

proof fn lemma_suffix_start_of_ws(s: Seq<char>, upto: int, k: int)
    requires
        0 <= k <= upto <= s.len(),
        forall|i: int| k <= i < upto ==> is_ws(#[trigger] s[i]),
        k == 0 || !is_ws(s[k - 1]),
    ensures
        ws_suffix_start(s, upto) == k,
    decreases upto - k,
{
    if k < upto {
        lemma_suffix_start_of_ws(s, upto - 1, k);
    }
}


} // verus!
