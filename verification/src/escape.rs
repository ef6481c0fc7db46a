//! Escaping of text placed inside a JSON string literal on the wire: quotes,
//! backslashes and control characters become `\u00XY`, everything else stays
//! itself. The escaped form contains no quote at all, so the closing quote
//! of a string field is always the first quote after the opening one, and
//! unescaping inverts escaping exactly.

use vstd::prelude::*;
use crate::num::{digit_char, digit_val, is_digit};
use crate::text::lemma_char_code;

verus! {

/// Characters that may not stand bare inside a JSON string literal.
pub open spec fn needs_escape(c: char) -> bool {
    c == '"' || c == '\\' || (c as int) < 32
}

/// The lower-case hex digit for `d < 16`.
pub open spec fn hex_digit_char(d: nat) -> char {
    if d < 10 {
        digit_char(d)
    } else {
        (('a' as int) + d - 10) as char
    }
}

pub open spec fn is_hex_lower(c: char) -> bool {
    is_digit(c) || ('a' <= c && c <= 'f')
}

pub open spec fn hex_val(c: char) -> nat {
    if is_digit(c) {
        digit_val(c)
    } else {
        (c as int - 'a' as int + 10) as nat
    }
}

/// What one character becomes on the wire.
pub open spec fn escape_char(c: char) -> Seq<char> {
    if needs_escape(c) {
        seq!['\\', 'u', '0', '0', hex_digit_char((c as nat) / 16), hex_digit_char((c as nat) % 16)]
    } else {
        seq![c]
    }
}

/// The escaped form of a whole string.
pub open spec fn escape_spec(s: Seq<char>) -> Seq<char>
    decreases s.len(),
{
    if s.len() == 0 {
        Seq::empty()
    } else {
        escape_char(s[0]) + escape_spec(s.skip(1))
    }
}

/// The inverse reading: `None` when the text is not the escaped form of
/// anything (a lone backslash, an unknown escape).
pub open spec fn unescape_spec(s: Seq<char>) -> Option<Seq<char>>
    decreases s.len(),
{
    if s.len() == 0 {
        Some(Seq::empty())
    } else if s[0] == '\\' {
        if s.len() >= 6 && s[1] == 'u' && s[2] == '0' && s[3] == '0' && is_hex_lower(s[4])
            && is_hex_lower(s[5]) {
            match unescape_spec(s.skip(6)) {
                Some(r) => Some(seq![((hex_val(s[4]) * 16 + hex_val(s[5])) as nat) as char] + r),
                None => None,
            }
        } else {
            None
        }
    } else {
        match unescape_spec(s.skip(1)) {
            Some(r) => Some(seq![s[0]] + r),
            None => None,
        }
    }
}

pub proof fn lemma_hex_digit_char_val(d: nat)
    requires
        d < 16,
    ensures
        is_hex_lower(hex_digit_char(d)),
        hex_val(hex_digit_char(d)) == d,
        hex_digit_char(d) != '"',
        hex_digit_char(d) != '\\',
{
}

/// Escaping distributes over concatenation.
pub proof fn lemma_escape_append(a: Seq<char>, b: Seq<char>)
    ensures
        escape_spec(a + b) == escape_spec(a) + escape_spec(b),
    decreases a.len(),
{
    if a.len() == 0 {
        assert(a + b =~= b);
        assert(escape_spec(a) + escape_spec(b) =~= escape_spec(b));
    } else {
        lemma_escape_append(a.skip(1), b);
        assert((a + b).skip(1) =~= a.skip(1) + b);
        assert((a + b)[0] == a[0]);
        assert(escape_char(a[0]) + (escape_spec(a.skip(1)) + escape_spec(b)) =~= (escape_char(a[0])
            + escape_spec(a.skip(1))) + escape_spec(b));
    }
}

/// Law: the escaped form of a string holds no quote character, so the first
/// quote after an escaped field is the field's closing quote.
pub proof fn lemma_escape_no_quote(s: Seq<char>)
    ensures
        forall|i: int| 0 <= i < escape_spec(s).len() ==> #[trigger] escape_spec(s)[i] != '"',
    decreases s.len(),
{
    if s.len() > 0 {
        lemma_escape_no_quote(s.skip(1));
        let c = s[0];
        if needs_escape(c) {
            lemma_char_code(c);
            lemma_hex_digit_char_val((c as nat) / 16);
            lemma_hex_digit_char_val((c as nat) % 16);
        }
        assert forall|i: int| 0 <= i < escape_spec(s).len() implies #[trigger] escape_spec(s)[i]
            != '"' by {
            let e = escape_char(c);
            if i < e.len() {
                assert(escape_spec(s)[i] == e[i]);
            } else {
                assert(escape_spec(s)[i] == escape_spec(s.skip(1))[i - e.len()]);
            }
        }
    }
}

/// Law: unescaping inverts escaping, so a string field read back from the
/// wire is exactly the string that was written.
pub proof fn lemma_unescape_escape(s: Seq<char>)
    ensures
        unescape_spec(escape_spec(s)) == Some(s),
    decreases s.len(),
{
    if s.len() == 0 {
        assert(escape_spec(s).len() == 0);
    } else {
        lemma_unescape_escape(s.skip(1));
        let c = s[0];
        let e = escape_char(c);
        let w = escape_spec(s);
        assert(w == e + escape_spec(s.skip(1)));
        if needs_escape(c) {
            lemma_char_code(c);
            let code = c as nat;
            lemma_hex_digit_char_val(code / 16);
            lemma_hex_digit_char_val(code % 16);
            assert(w.len() >= 6);
            assert(w[0] == '\\' && w[1] == 'u' && w[2] == '0' && w[3] == '0');
            assert(w[4] == hex_digit_char(code / 16) && w[5] == hex_digit_char(code % 16));
            assert(w.skip(6) =~= escape_spec(s.skip(1)));
            vstd::arithmetic::div_mod::lemma_fundamental_div_mod(code as int, 16);
            assert(hex_val(w[4]) * 16 + hex_val(w[5]) == code);
            assert((code as nat) as char == c);
            assert(seq![c] + s.skip(1) =~= s);
        } else {
            assert(w[0] == c);
            assert(c != '\\');
            assert(w.skip(1) =~= escape_spec(s.skip(1)));
            assert(seq![c] + s.skip(1) =~= s);
        }
    }
}

fn hex_to_char(d: u8) -> (c: char)
    requires
        d < 16,
    ensures
        c == hex_digit_char(d as nat),
{
    if d < 10 {
        (48u8 + d) as char
    } else {
        (87u8 + d) as char
    }
}

/// Append the escaped form of `v` to `out`.
pub fn push_escaped(v: &Vec<char>, out: &mut Vec<char>)
    ensures
        final(out)@ == old(out)@ + escape_spec(v@),
{
    let ghost prefix = out@;
    let mut i: usize = 0;
    proof {
        assert(v@.subrange(0, 0) =~= Seq::<char>::empty());
        assert(out@ =~= prefix + escape_spec(v@.subrange(0, 0)));
    }
    while i < v.len()
        invariant
            i <= v@.len(),
            out@ == prefix + escape_spec(v@.subrange(0, i as int)),
        decreases v@.len() - i,
    {
        let c = v[i];
        proof {
            lemma_char_code(c);
        }
        let code = c as u32;
        if c == '"' || c == '\\' || code < 32 {
            out.push('\\');
            out.push('u');
            out.push('0');
            out.push('0');
            out.push(hex_to_char((code / 16) as u8));
            out.push(hex_to_char((code % 16) as u8));
            proof {
                assert(needs_escape(c));
                assert((code / 16) as u8 as nat == (c as nat) / 16);
                assert((code % 16) as u8 as nat == (c as nat) % 16);
            }
        } else {
            out.push(c);
            proof {
                assert(!needs_escape(c));
            }
        }
        proof {
            assert(v@.subrange(0, i + 1) =~= v@.subrange(0, i as int) + seq![c]);
            lemma_escape_append(v@.subrange(0, i as int), seq![c]);
            assert(escape_spec(seq![c]) =~= escape_char(c) + escape_spec(seq![c].skip(1)));
            assert(seq![c].skip(1) =~= Seq::<char>::empty());
            assert(escape_spec(seq![c]) =~= escape_char(c));
            assert(out@ =~= prefix + escape_spec(v@.subrange(0, i + 1)));
        }
        i = i + 1;
    }
    proof {
        assert(v@.subrange(0, v@.len() as int) =~= v@);
    }
}

/// Read the escaped text back; `None` when it is not a well-formed escaped
/// form.
pub fn unescape_chars(v: &Vec<char>) -> (r: Option<Vec<char>>)
    ensures
        match r {
            Some(out) => unescape_spec(v@) == Some(out@),
            None => unescape_spec(v@) is None,
        },
{
    let len = v.len();
    let mut out: Vec<char> = Vec::new();
    let mut i: usize = 0;
    proof {
        assert(v@.skip(0) =~= v@);
    }
    while i < len
        invariant
            i <= len,
            len == v@.len(),
            unescape_spec(v@) == match unescape_spec(v@.skip(i as int)) {
                Some(t) => Some(out@ + t),
                None => None::<Seq<char>>,
            },
        decreases len - i,
    {
        let ghost rest = v@.skip(i as int);
        let c = v[i];
        proof {
            assert(rest[0] == c);
        }
        if c == '\\' {
            if len - i < 6 {
                proof {
                    assert(rest.len() < 6);
                    assert(unescape_spec(rest) is None);
                }
                return None;
            }
            let c1 = v[i + 1];
            let c2 = v[i + 2];
            let c3 = v[i + 3];
            let h1 = v[i + 4];
            let h2 = v[i + 5];
            proof {
                assert(rest.len() >= 6);
                assert(rest[1] == c1 && rest[2] == c2 && rest[3] == c3 && rest[4] == h1 && rest[5]
                    == h2);
            }
            let h1_digit = '0' <= h1 && h1 <= '9';
            let h1_alpha = 'a' <= h1 && h1 <= 'f';
            let h2_digit = '0' <= h2 && h2 <= '9';
            let h2_alpha = 'a' <= h2 && h2 <= 'f';
            if !(c1 == 'u' && c2 == '0' && c3 == '0' && (h1_digit || h1_alpha) && (h2_digit
                || h2_alpha)) {
                proof {
                    assert(unescape_spec(rest) is None);
                }
                return None;
            }
            proof {
                lemma_char_code(h1);
                lemma_char_code(h2);
            }
            let v1: u32 = if h1_digit {
                h1 as u32 - 48
            } else {
                h1 as u32 - 87
            };
            let v2: u32 = if h2_digit {
                h2 as u32 - 48
            } else {
                h2 as u32 - 87
            };
            proof {
                assert(v1 as nat == hex_val(h1));
                assert(v2 as nat == hex_val(h2));
            }
            let code = v1 * 16 + v2;
            let decoded = (code as u8) as char;
            proof {
                assert(code < 256);
                assert(decoded == ((hex_val(rest[4]) * 16 + hex_val(rest[5])) as nat) as char);
            }
            out.push(decoded);
            proof {
                assert(rest.skip(6) =~= v@.skip(i + 6));
                assert forall|t: Seq<char>|
                    unescape_spec(v@.skip(i + 6)) == Some(t) implies unescape_spec(rest) == Some(
                    seq![decoded] + t,
                ) by {}
                if unescape_spec(v@.skip(i + 6)) is Some {
                    let t = unescape_spec(v@.skip(i + 6))->Some_0;
                    assert(out@ + t =~= out@.drop_last() + (seq![decoded] + t));
                }
            }
            i = i + 6;
        } else {
            out.push(c);
            proof {
                assert(rest.skip(1) =~= v@.skip(i + 1));
                if unescape_spec(v@.skip(i + 1)) is Some {
                    let t = unescape_spec(v@.skip(i + 1))->Some_0;
                    assert(out@ + t =~= out@.drop_last() + (seq![c] + t));
                }
            }
            i = i + 1;
        }
    }
    proof {
        assert(v@.skip(len as int) =~= Seq::<char>::empty());
        assert(unescape_spec(v@.skip(len as int)) == Some(Seq::<char>::empty()));
        assert(out@ + Seq::<char>::empty() =~= out@);
    }
    Some(out)
}


/// Law: the escaped form of a string holds no raw control character either:
/// every control character was rewritten into its `\u00XY` form, whose six
/// characters are all printable.
pub proof fn lemma_escape_line_safe(s: Seq<char>)
    ensures
        forall|i: int|
            0 <= i < escape_spec(s).len() ==> #[trigger] escape_spec(s)[i] != '\n' && escape_spec(
                s,
            )[i] != '\r',
    decreases s.len(),
{
    if s.len() > 0 {
        lemma_escape_line_safe(s.skip(1));
        let c = s[0];
        if needs_escape(c) {
            lemma_char_code(c);
            lemma_hex_digit_char_val((c as nat) / 16);
            lemma_hex_digit_char_val((c as nat) % 16);
        }
        assert forall|i: int| 0 <= i < escape_spec(s).len() implies #[trigger] escape_spec(s)[i]
            != '\n' && escape_spec(s)[i] != '\r' by {
            let e = escape_char(c);
            if i < e.len() {
                assert(escape_spec(s)[i] == e[i]);
            } else {
                assert(escape_spec(s)[i] == escape_spec(s.skip(1))[i - e.len()]);
            }
        }
    }
}

} // verus!
