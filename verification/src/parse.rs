//! Parsing of style strings.
//!
//! A size token is an optional sign, digits, and at most one decimal point,
//! optionally followed by `%`.  The numeric part is read as a fixed-point
//! value in thousandths (fractional digits beyond the third are dropped).
//! A malformed token silently yields zero; a value beyond the representable
//! bound saturates at the bound.

use vstd::prelude::*;

use crate::num::{clamp_i64, clamp_spec, min_spec, MILLI, NUM_LIMIT};

verus! {

/// Whether `c` is a decimal digit.
pub open spec fn is_digit(c: char) -> bool {
    48 <= c as u32 <= 57
}

/// The value of a decimal digit.
pub open spec fn digit_val(c: char) -> int {
    c as u32 - 48
}

/// Whether every character of `s` is a decimal digit.
pub open spec fn all_digits(s: Seq<char>) -> bool {
    forall|i: int| 0 <= i < s.len() ==> is_digit(#[trigger] s[i])
}

/// The value of a digit string, most significant digit first.
pub open spec fn digits_val(s: Seq<char>) -> int
    decreases s.len(),
{
    if s.len() == 0 {
        0
    } else {
        digits_val(s.drop_last()) * 10 + digit_val(s.last())
    }
}

/// The index of the first `.` in `s`, or `s.len()` if there is none.
pub open spec fn dot_index(s: Seq<char>) -> int
    decreases s.len(),
{
    if s.len() == 0 {
        0
    } else if s[0] == '.' {
        0
    } else {
        1 + dot_index(s.skip(1))
    }
}

/// The digits before the first `.` of an unsigned token.
pub open spec fn int_part(t: Seq<char>) -> Seq<char> {
    t.take(dot_index(t))
}

/// The digits after the first `.` of an unsigned token; empty if there is
/// no `.`.
pub open spec fn frac_part(t: Seq<char>) -> Seq<char> {
    if dot_index(t) == t.len() {
        Seq::empty()
    } else {
        t.skip(dot_index(t) + 1)
    }
}

/// Whether an unsigned token is a well-formed decimal: digits with at most
/// one `.`, and at least one digit.
pub open spec fn valid_body(t: Seq<char>) -> bool {
    &&& all_digits(int_part(t))
    &&& all_digits(frac_part(t))
    &&& int_part(t).len() + frac_part(t).len() >= 1
}

/// The value in thousandths of the fractional digits: the first three
/// digits count, later ones are dropped.
pub open spec fn frac_milli(f: Seq<char>) -> int {
    if f.len() >= 3 {
        digits_val(f.take(3))
    } else if f.len() == 2 {
        digits_val(f) * 10
    } else if f.len() == 1 {
        digits_val(f) * 100
    } else {
        0
    }
}

/// The value of an unsigned token, in thousandths.
pub open spec fn body_milli(t: Seq<char>) -> int {
    digits_val(int_part(t)) * (MILLI as int) + frac_milli(frac_part(t))
}

/// `s` without its leading sign, if any.
pub open spec fn strip_sign(s: Seq<char>) -> Seq<char> {
    if s.len() > 0 && (s[0] == '-' || s[0] == '+') {
        s.skip(1)
    } else {
        s
    }
}

/// The sign of `s`: `-1` under a leading `-`, else `1`.
pub open spec fn sign_of(s: Seq<char>) -> int {
    if s.len() > 0 && s[0] == '-' {
        -1
    } else {
        1
    }
}

/// Whether `s` is a well-formed signed decimal token.
pub open spec fn valid_decimal(s: Seq<char>) -> bool {
    valid_body(strip_sign(s))
}

/// The signed value of a well-formed token, in thousandths.
pub open spec fn dec_milli(s: Seq<char>) -> int {
    sign_of(s) * body_milli(strip_sign(s))
}

/// What parsing a length yields: the token's value saturated at `lim`,
/// or zero if the token is malformed.
pub open spec fn parse_len_spec(s: Seq<char>, lim: int) -> int {
    if valid_decimal(s) {
        clamp_spec(dec_milli(s), lim)
    } else {
        0
    }
}

/// The thousandths value of the first `n` fractional digits of `f`.
pub open spec fn frac_milli_prefix(f: Seq<char>, n: int) -> int {
    if n >= 3 {
        digits_val(f.take(3))
    } else if n == 2 {
        digits_val(f.take(2)) * 10
    } else if n == 1 {
        digits_val(f.take(1)) * 100
    } else {
        0
    }
}

/// The value of a digit string is never negative.
proof fn lemma_digits_val_nonneg(s: Seq<char>)
    requires
        all_digits(s),
    ensures
        digits_val(s) >= 0,
    decreases s.len(),
{
    if s.len() > 0 {
        assert(all_digits(s.drop_last()));
        lemma_digits_val_nonneg(s.drop_last());
    }
}

/// Extending a digit string on the right multiplies its value by ten and
/// adds the new digit.
proof fn lemma_digits_val_push(s: Seq<char>, i: int)
    requires
        0 <= i < s.len(),
    ensures
        digits_val(s.take(i + 1)) == digits_val(s.take(i)) * 10 + digit_val(s[i]),
{
    assert(s.take(i + 1).drop_last() =~= s.take(i));
    assert(s.take(i + 1).last() == s[i]);
}

/// The first dot lies within the string, and everything before it is not a
/// dot; where it lies inside the string, it is a dot.
proof fn lemma_dot_index_props(s: Seq<char>)
    ensures
        0 <= dot_index(s) <= s.len(),
        dot_index(s) < s.len() ==> s[dot_index(s)] == '.',
        forall|i: int| 0 <= i < dot_index(s) ==> s[i] != '.',
    decreases s.len(),
{
    if s.len() > 0 && s[0] != '.' {
        lemma_dot_index_props(s.skip(1));
        assert(forall|i: int| 0 <= i < dot_index(s) ==> s[i] != '.') by {
            assert(forall|i: int|
                1 <= i < dot_index(s) ==> s[i] == s.skip(1)[i - 1] && s.skip(1)[i - 1] != '.');
        }
    }
}

/// If the first `d` characters are not dots, the first dot is at `d` or
/// later.
proof fn lemma_dot_index_from(s: Seq<char>, d: int)
    requires
        0 <= d <= s.len(),
        forall|i: int| 0 <= i < d ==> s[i] != '.',
    ensures
        dot_index(s) >= d,
    decreases d,
{
    lemma_dot_index_props(s);
    if d > 0 {
        let t = s.skip(1);
        assert(forall|i: int| 0 <= i < d - 1 ==> t[i] == s[i + 1] && s[i + 1] != '.');
        lemma_dot_index_from(t, d - 1);
        assert(s[0] != '.');
    }
}

/// Parse the first `end` characters of `s` as a signed fixed-point token,
/// saturating at `lim`; malformed input yields zero.
#[verifier::rlimit(50)]
#[verifier::spinoff_prover]
pub fn parse_len(s: &str, end: usize, lim: i64) -> (r: i64)
    requires
        end <= s@.len(),
        MILLI < lim <= NUM_LIMIT,
    ensures
        r == parse_len_spec(s@.take(end as int), lim as int),
        -lim <= r <= lim,
{
    let ghost t0 = s@.take(end as int);
    if end == 0 {
        assert(!valid_decimal(t0));
        return 0;
    }
    let c0 = s.get_char(0);
    let mut i: usize = 0;
    let neg: bool = c0 == '-';
    if c0 == '-' || c0 == '+' {
        i = 1;
    }
    let ghost off = i as int;
    let ghost t = strip_sign(t0);
    proof {
        assert(t =~= t0.skip(off));
    }
    // integer part: accumulate the value in thousandths, saturating at cap
    let cap: i64 = lim + MILLI;
    let mut acc: i64 = 0;
    let mut j: usize = i;
    loop
        invariant
            i <= j <= end,
            end <= s@.len(),
            off == i as int,
            t0 == s@.take(end as int),
            t == strip_sign(t0),
            t =~= t0.skip(off),
            MILLI < lim <= NUM_LIMIT,
            cap == lim + MILLI,
            forall|k: int| off <= k < j ==> is_digit(#[trigger] t0[k]),
            acc == min_spec(digits_val(t.take(j - off)) * (MILLI as int), cap as int),
            0 <= acc <= cap,
        ensures
            i <= j <= end,
            forall|k: int| off <= k < j ==> is_digit(#[trigger] t0[k]),
            acc == min_spec(digits_val(t.take(j - off)) * (MILLI as int), cap as int),
            0 <= acc <= cap,
            j == end || !is_digit(t0[j as int]),
        decreases end - j,
    {
        if j >= end {
            break;
        }
        let c = s.get_char(j);
        let u = c as u32;
        if 48 <= u && u <= 57 {
            let d = (u - 48) as i64;
            proof {
                let m = j - off;
                assert(t[m] == t0[j as int]);
                assert(all_digits(t.take(m)));
                lemma_digits_val_nonneg(t.take(m));
                lemma_digits_val_push(t, m);
                let old_true = digits_val(t.take(m));
                assert(digits_val(t.take(m + 1)) * (MILLI as int) == (old_true * (MILLI as int))
                    * 10 + digit_val(t[m]) * (MILLI as int)) by (nonlinear_arith)
                    requires
                        digits_val(t.take(m + 1)) == old_true * 10 + digit_val(t[m]),
                        MILLI == 1000,
                ;
            }
            acc = if acc * 10 + d * MILLI < cap {
                acc * 10 + d * MILLI
            } else {
                cap
            };
            proof {
                let m = j - off;
                assert(acc == min_spec(digits_val(t.take(m + 1)) * (MILLI as int), cap as int));
            }
        } else {
            break;
        }
        j += 1;
    }
    let int_digits = j - i;
    proof {
        assert(forall|k: int|
            0 <= k < j - off ==> is_digit(#[trigger] t[k]) && !(t[k] == '.'));
    }
    // fractional part
    let mut f: i64 = 0;
    let mut frac_digits: usize = 0;
    if j < end {
        let c = s.get_char(j);
        proof {
            assert(t[j - off] == t0[j as int]);
        }
        if c != '.' {
            // a stray character inside the token: the whole token is malformed
            proof {
                let m = j - off;
                assert(!is_digit(t[m]));
                lemma_dot_index_from(t, m);
                lemma_dot_index_props(t);
                assert(dot_index(t) != m);
                assert(m < dot_index(t));
                assert(int_part(t)[m] == t[m]);
                assert(!all_digits(int_part(t)));
                assert(!valid_body(t));
            }
            return 0;
        }
        proof {
            let m = j - off;
            lemma_dot_index_from(t, m);
            lemma_dot_index_props(t);
            assert(forall|k: int| 0 <= k < m ==> t[k] != '.');
            assert(dot_index(t) == m) by {
                if dot_index(t) > m {
                    assert(t[m] == '.');
                    assert(forall|i2: int| 0 <= i2 < dot_index(t) ==> t[i2] != '.');
                }
            }
            assert(frac_part(t) =~= t.skip(m + 1));
        }
        let mut k: usize = j + 1;
        loop
            invariant
                j + 1 <= k <= end,
                end <= s@.len(),
                i <= j,
                off == i as int,
                t0 == s@.take(end as int),
                t == strip_sign(t0),
                t =~= t0.skip(off),
                MILLI < lim <= NUM_LIMIT,
                dot_index(t) == j - off,
                (j as int) < (end as int),
                frac_part(t) =~= t.skip(j - off + 1),
                frac_part(t).len() == end - j - 1,
                forall|m: int| j < m < k ==> is_digit(#[trigger] t0[m]),
                forall|m: int| 0 <= m < k - j - 1 ==> is_digit(#[trigger] frac_part(t)[m]),
                f == frac_milli_prefix(frac_part(t), k - j - 1),
                0 <= f <= 999,
            ensures
                k == end,
                forall|m: int| 0 <= m < k - j - 1 ==> is_digit(#[trigger] frac_part(t)[m]),
                f == frac_milli_prefix(frac_part(t), k - j - 1),
                0 <= f <= 999,
            decreases end - k,
        {
            if k >= end {
                break;
            }
            let c = s.get_char(k);
            let u = c as u32;
            let ghost fp = frac_part(t);
            let ghost m = k - j - 1;
            proof {
                assert(t0.skip(off)[k - off] == t0[k as int]);
                assert(t.skip(j - off + 1)[m] == t[k - off]);
                assert(fp[m] == t0[k as int]);
            }
            if 48 <= u && u <= 57 {
                let d = (u - 48) as i64;
                if k - j - 1 == 0 {
                    proof {
                        lemma_digits_val_push(fp, 0);
                        assert(fp.take(0) =~= Seq::<char>::empty());
                        assert(digits_val(fp.take(1)) == digit_val(fp[0]));
                        assert(frac_milli_prefix(fp, 1) == digit_val(fp[0]) * 100);
                    }
                    f = d * 100;
                } else if k - j - 1 == 1 {
                    proof {
                        lemma_digits_val_push(fp, 1);
                        assert(digits_val(fp.take(2)) * 10 == digits_val(fp.take(1)) * 100
                            + digit_val(fp[1]) * 10) by (nonlinear_arith)
                            requires
                                digits_val(fp.take(2)) == digits_val(fp.take(1)) * 10 + digit_val(
                                    fp[1],
                                ),
                        ;
                        assert(is_digit(fp[1]));
                    }
                    f = f + d * 10;
                } else if k - j - 1 == 2 {
                    proof {
                        lemma_digits_val_push(fp, 2);
                        assert(is_digit(fp[2]));
                    }
                    f = f + d;
                }
            } else {
                // a stray character in the fractional digits: malformed
                proof {
                    assert(!is_digit(fp[m]));
                    assert(!all_digits(fp));
                    assert(!valid_body(t));
                }
                return 0;
            }
            k += 1;
        }
        frac_digits = k - j - 1;
        proof {
            let fp = frac_part(t);
            if fp.len() >= 3 {
            } else if fp.len() == 2 {
                assert(fp.take(2) =~= fp);
            } else if fp.len() == 1 {
                assert(fp.take(1) =~= fp);
            }
            assert(f == frac_milli(fp));
        }
    } else {
        proof {
            lemma_dot_index_from(t, t.len() as int);
            lemma_dot_index_props(t);
            assert(dot_index(t) == t.len());
            assert(frac_part(t) =~= Seq::<char>::empty());
            assert(f == frac_milli(frac_part(t)));
        }
    }
    if int_digits == 0 && frac_digits == 0 {
        proof {
            assert(int_part(t).len() == 0) by {
                if j - off < t.len() {
                    lemma_dot_index_props(t);
                }
            }
            assert(frac_part(t).len() == 0);
            assert(!valid_body(t));
        }
        return 0;
    }
    proof {
        lemma_dot_index_props(t);
        assert(int_part(t) =~= t.take(j - off)) by {
            if j - off < t.len() {
                assert(dot_index(t) == j - off);
            } else {
                assert(dot_index(t) == t.len());
            }
        }
        assert(all_digits(int_part(t)));
        assert(all_digits(frac_part(t)));
        assert(valid_body(t));
        lemma_digits_val_nonneg(int_part(t));
    }
    let total: i64 = if acc >= cap {
        cap
    } else {
        acc + f
    };
    proof {
        let body = body_milli(t);
        let iv = digits_val(int_part(t)) * (MILLI as int);
        assert(0 <= frac_milli(frac_part(t)) <= 999);
        if acc >= cap {
            assert(iv >= cap);
            assert(body > lim);
            assert(clamp_spec(body, lim as int) == lim);
            assert(total == cap > lim);
        } else {
            assert(acc == iv);
            assert(total == body);
        }
        assert(clamp_spec(total as int, lim as int) == clamp_spec(body, lim as int));
        assert(valid_decimal(t0));
        assert(dec_milli(t0) == if neg {
            -body
        } else {
            body
        }) by {
            if neg {
                assert(sign_of(t0) == -1);
                assert((-1) * body == -body) by (nonlinear_arith);
            } else {
                assert(sign_of(t0) == 1);
                assert(1 * body == body) by (nonlinear_arith);
            }
        }
    }
    let clamped = clamp_i64(total, lim);
    if neg {
        proof {
            assert(clamp_spec(-(body_milli(t)), lim as int) == -clamp_spec(
                body_milli(t),
                lim as int,
            ));
        }
        -clamped
    } else {
        clamped
    }
}

/// Whether `c` separates tokens.
pub open spec fn is_space(c: char) -> bool {
    c == ' ' || c == '\t' || c == '\n' || c == '\r'
}

/// The whitespace-separated tokens of `s` from position `i` on, where
/// `cur` is the partial token read so far.
pub open spec fn toks(s: Seq<char>, i: int, cur: Seq<char>) -> Seq<Seq<char>>
    decreases s.len() - i,
{
    if i < 0 || i >= s.len() {
        if cur.len() == 0 {
            Seq::empty()
        } else {
            seq![cur]
        }
    } else if is_space(s[i]) {
        if cur.len() == 0 {
            toks(s, i + 1, Seq::empty())
        } else {
            seq![cur] + toks(s, i + 1, Seq::empty())
        }
    } else {
        toks(s, i + 1, cur.push(s[i]))
    }
}

/// The whitespace-separated tokens of `s`.
pub open spec fn tokens(s: Seq<char>) -> Seq<Seq<char>> {
    toks(s, 0, Seq::empty())
}

} // verus!
