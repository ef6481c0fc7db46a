//! Decimal text for process ids and request ids: rendering an unsigned
//! number as digits, parsing digits back, and the round-trip law that makes
//! PID files and envelope ids unambiguous.

use vstd::prelude::*;
use crate::text::chars_to_string;

verus! {

pub open spec fn is_digit(c: char) -> bool {
    '0' <= c && c <= '9'
}

pub open spec fn digit_val(c: char) -> nat {
    (c as int - '0' as int) as nat
}

pub open spec fn digit_char(d: nat) -> char {
    (('0' as int) + d) as char
}

/// The decimal digits of `n`, most significant first, with no sign and no
/// leading zero (except for `n == 0`, which is the single digit `0`).
pub open spec fn dec_digits(n: nat) -> Seq<char>
    decreases n,
{
    if n < 10 {
        seq![digit_char(n)]
    } else {
        dec_digits(n / 10).push(digit_char(n % 10))
    }
}

/// The value of a digit string, most significant digit first.
pub open spec fn parse_digits(s: Seq<char>) -> nat
    decreases s.len(),
{
    if s.len() == 0 {
        0
    } else {
        parse_digits(s.drop_last()) * 10 + digit_val(s.last())
    }
}

pub open spec fn all_digits(s: Seq<char>) -> bool {
    forall|i: int| 0 <= i < s.len() ==> is_digit(#[trigger] s[i])
}

/// Where the run of digits that starts at `from` ends.
pub open spec fn digit_run_end(s: Seq<char>, from: int) -> int
    decreases s.len() - from when 0 <= from <= s.len()
{
    if from < s.len() && is_digit(s[from]) {
        digit_run_end(s, from + 1)
    } else {
        from
    }
}

pub proof fn lemma_dec_digits_are_digits(n: nat)
    ensures
        dec_digits(n).len() >= 1,
        all_digits(dec_digits(n)),
    decreases n,
{
    if n < 10 {
        assert(is_digit(digit_char(n)));
    } else {
        lemma_dec_digits_are_digits(n / 10);
        assert(is_digit(digit_char(n % 10)));
    }
}

/// Law: parsing the decimal rendering of a number gives the number back,
/// so rendered ids and PIDs are never misread.
pub proof fn lemma_parse_dec_digits(n: nat)
    ensures
        parse_digits(dec_digits(n)) == n,
    decreases n,
{
    if n < 10 {
        let s = dec_digits(n);
        assert(s.len() == 1);
        assert(s.drop_last() =~= Seq::<char>::empty());
        assert(s.last() == digit_char(n));
        assert(parse_digits(s) == parse_digits(s.drop_last()) * 10 + digit_val(s.last()));
        assert(parse_digits(s.drop_last()) == 0);
        assert(digit_val(digit_char(n)) == n);
    } else {
        lemma_parse_dec_digits(n / 10);
        let s = dec_digits(n);
        assert(s == dec_digits(n / 10).push(digit_char(n % 10)));
        assert(s.len() >= 1);
        assert(s.drop_last() =~= dec_digits(n / 10));
        assert(s.last() == digit_char(n % 10));
        assert(parse_digits(s) == parse_digits(s.drop_last()) * 10 + digit_val(s.last()));
        assert(digit_val(digit_char(n % 10)) == n % 10);
        assert(parse_digits(s) == (n / 10) * 10 + n % 10);
        vstd::arithmetic::div_mod::lemma_fundamental_div_mod(n as int, 10);
        assert((n / 10) * 10 + n % 10 == n);
    }
}

/// A digit run that is followed by a non-digit (or by the end) is exactly
/// where `digit_run_end` stops.
pub proof fn lemma_digit_run_end_of(s: Seq<char>, from: int, k: int)
    requires
        0 <= from <= k <= s.len(),
        forall|i: int| from <= i < k ==> is_digit(#[trigger] s[i]),
        k == s.len() || !is_digit(s[k]),
    ensures
        digit_run_end(s, from) == k,
    decreases k - from,
{
    if from < k {
        lemma_digit_run_end_of(s, from + 1, k);
    }
}

/// Extending a digit string on the right never lowers its value.
pub proof fn lemma_parse_digits_extend(s: Seq<char>, j: int, k: int)
    requires
        0 <= j <= k <= s.len(),
    ensures
        parse_digits(s.subrange(0, k)) >= parse_digits(s.subrange(0, j)),
    decreases k - j,
{
    if j < k {
        lemma_parse_digits_extend(s, j, k - 1);
        assert(s.subrange(0, k).drop_last() =~= s.subrange(0, k - 1));
        let p = parse_digits(s.subrange(0, k - 1));
        assert(parse_digits(s.subrange(0, k)) == p * 10 + digit_val(s.subrange(0, k).last()));
        assert(p * 10 >= p) by (nonlinear_arith)
            requires p >= 0;
    }
}

pub fn digit_to_char(d: u8) -> (c: char)
    requires
        d < 10,
    ensures
        c == digit_char(d as nat),
{
    (48u8 + d) as char
}

/// Append the decimal digits of `n` to `out`.
pub fn push_dec_digits(n: u64, out: &mut Vec<char>)
    ensures
        final(out)@ == old(out)@ + dec_digits(n as nat),
    decreases n,
{
    let ghost prefix = out@;
    if n >= 10 {
        push_dec_digits(n / 10, out);
    }
    let d = digit_to_char((n % 10) as u8);
    out.push(d);
    proof {
        if n < 10 {
            assert(out@ =~= prefix + dec_digits(n as nat));
        } else {
            assert(out@ =~= prefix + dec_digits(n as nat));
        }
    }
}

/// Render `n` in decimal.
pub fn u64_to_dec_string(n: u64) -> (r: String)
    ensures
        r@ == dec_digits(n as nat),
{
    let mut v: Vec<char> = Vec::new();
    push_dec_digits(n, &mut v);
    proof {
        assert(v@ =~= dec_digits(n as nat));
    }
    chars_to_string(&v)
}

/// Read the digit run that starts at `from`; `None` if there is no digit
/// there or the run's value does not fit in a `u64`.
pub fn scan_u64(v: &Vec<char>, from: usize) -> (r: Option<(u64, usize)>)
    requires
        from <= v@.len(),
    ensures
        ({
            let end = digit_run_end(v@, from as int);
            let val = parse_digits(v@.subrange(from as int, end));
            if from < end && val <= u64::MAX {
                r == Some((val as u64, end as usize))
            } else {
                r is None
            }
        }),
{
    let ghost end = digit_run_end(v@, from as int);
    let len = v.len();
    let mut i: usize = from;
    let mut acc: u64 = 0;
    let mut stop = false;
    while !stop && i < len
        invariant
            from <= i <= len,
            len == v@.len(),
            end == digit_run_end(v@, from as int),
            forall|j: int| from <= j < i ==> is_digit(#[trigger] v@[j]),
            stop ==> i < len && !is_digit(v@[i as int]),
            acc as nat == parse_digits(v@.subrange(from as int, i as int)),
        decreases len - i + (if stop {
            0int
        } else {
            1int
        }),
    {
        let c = v[i];
        if !('0' <= c && c <= '9') {
            stop = true;
        } else {
            let d = (c as u32 - 48) as u8;
            let step = match acc.checked_mul(10) {
                Some(m) => m.checked_add(d as u64),
                None => None,
            };
            proof {
                assert(v@.subrange(from as int, i + 1 as int).drop_last() =~= v@.subrange(
                    from as int,
                    i as int,
                ));
                assert(parse_digits(v@.subrange(from as int, i + 1)) == acc as nat * 10 + digit_val(
                    c,
                ));
            }
            match step {
                Some(next) => {
                    acc = next;
                },
                None => {
                    proof {
                        assert(parse_digits(v@.subrange(from as int, i + 1)) > u64::MAX);
                        lemma_run_prefix_digits(v@, from as int, end);
                        lemma_digit_run_end_of(v@, from as int, end);
                        assert(i + 1 <= end);
                        lemma_parse_digits_extend(
                            v@.subrange(from as int, end),
                            i + 1 - from,
                            end - from,
                        );
                        assert(v@.subrange(from as int, end).subrange(0, i + 1 - from)
                            =~= v@.subrange(from as int, i + 1));
                        assert(v@.subrange(from as int, end).subrange(0, end - from) =~= v@.subrange(
                            from as int,
                            end,
                        ));
                    }
                    return None;
                },
            }
            i = i + 1;
        }
    }
    proof {
        lemma_digit_run_end_of(v@, from as int, i as int);
        assert(end == i);
    }
    if i == from {
        None
    } else {
        Some((acc, i))
    }
}

/// Parse a whole string of digits as a `u64`; `None` on an empty string, a
/// non-digit, or overflow.
pub fn parse_u64_all(v: &Vec<char>) -> (r: Option<u64>)
    ensures
        if 0 < v@.len() && all_digits(v@) && parse_digits(v@) <= u64::MAX {
            r == Some(parse_digits(v@) as u64)
        } else {
            r is None
        },
{
    proof {
        if 0 < v@.len() && all_digits(v@) {
            lemma_digit_run_end_of(v@, 0, v@.len() as int);
        }
    }
    match scan_u64(v, 0) {
        Some((val, endpos)) => {
            if endpos == v.len() {
                proof {
                    assert(v@.subrange(0, v@.len() as int) =~= v@);
                    let ghost e = digit_run_end(v@, 0);
                    lemma_run_prefix_digits(v@, 0, e);
                }
                Some(val)
            } else {
                proof {
                    let ghost e = digit_run_end(v@, 0);
                    lemma_run_prefix_digits(v@, 0, e);
                    assert(!is_digit(v@[e]));
                }
                None
            }
        },
        None => {
            proof {
                if 0 < v@.len() && all_digits(v@) {
                    assert(v@.subrange(0, v@.len() as int) =~= v@);
                }
            }
            None
        },
    }
}

/// Everything before `digit_run_end` is a digit, and the run stops at the
/// end or at a non-digit.
pub proof fn lemma_run_prefix_digits(s: Seq<char>, from: int, e: int)
    requires
        0 <= from <= s.len(),
        e == digit_run_end(s, from),
    ensures
        from <= e <= s.len(),
        forall|i: int| from <= i < e ==> is_digit(#[trigger] s[i]),
        e == s.len() || !is_digit(s[e]),
    decreases s.len() - from,
{
    if from < s.len() && is_digit(s[from]) {
        lemma_run_prefix_digits(s, from + 1, e);
    }
}

} // verus!
