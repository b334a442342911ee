//! Base-10 rendering of signed 64-bit integers and the inverse parse,
//! both pinned to one recursive specification of decimal notation.
use vstd::prelude::*;

verus! {

/// The character for one decimal digit value.
pub open spec fn digit_char(d: int) -> char {
    ((d + 48) as u8) as char
}

/// Decimal digits of a non-negative number, most significant first.
pub open spec fn dec_nat(n: nat) -> Seq<char>
    decreases n,
{
    if n < 10 {
        seq![digit_char(n as int)]
    } else {
        dec_nat(n / 10).push(digit_char((n % 10) as int))
    }
}

/// Decimal notation of a signed number: a minus sign for negatives.
pub open spec fn dec_int(n: int) -> Seq<char> {
    if n < 0 {
        seq!['-'] + dec_nat((-n) as nat)
    } else {
        dec_nat(n as nat)
    }
}

fn push_digit(dst: &mut Vec<char>, d: u64)
    requires
        d < 10,
    ensures
        final(dst)@ == old(dst)@ + seq![digit_char(d as int)],
{
    let c: u8 = 48 + (d as u8);
    dst.push(c as char);
}

pub fn push_dec_u64(dst: &mut Vec<char>, n: u64)
    ensures
        final(dst)@ == old(dst)@ + dec_nat(n as nat),
    decreases n,
{
    if n < 10 {
        push_digit(dst, n);
    } else {
        push_dec_u64(dst, n / 10);
        push_digit(dst, n % 10);
        proof {
            assert(old(dst)@ + dec_nat((n / 10) as nat) + seq![
                digit_char((n % 10) as int),
            ] =~= old(dst)@ + dec_nat(n as nat));
        }
    }
}

pub fn push_dec_i64(dst: &mut Vec<char>, n: i64)
    ensures
        final(dst)@ == old(dst)@ + dec_int(n as int),
{
    if n < 0 {
        dst.push('-');
        let m: u64 = if n == i64::MIN {
            9223372036854775808u64
        } else {
            (-n) as u64
        };
        assert(m == -(n as int));
        push_dec_u64(dst, m);
        proof {
            assert(old(dst)@ + seq!['-'] + dec_nat(m as nat) =~= old(dst)@ + dec_int(n as int));
        }
    } else {
        push_dec_u64(dst, n as u64);
    }
}

pub open spec fn is_digit(c: char) -> bool {
    '0' <= c && c <= '9'
}

pub open spec fn digit_of(c: char) -> int {
    c as int - 48
}

pub open spec fn all_digits(s: Seq<char>) -> bool {
    forall|i: int| 0 <= i < s.len() ==> is_digit(s[i])
}

/// The value of a run of decimal digits, most significant first.
pub open spec fn digits_val(s: Seq<char>) -> int
    decreases s.len(),
{
    if s.len() == 0 {
        0
    } else {
        digits_val(s.drop_last()) * 10 + digit_of(s.last())
    }
}

/// The digit run of an integer literal: everything after an optional sign.
pub open spec fn lit_body(s: Seq<char>) -> Seq<char> {
    if s.len() > 0 && (s[0] == '+' || s[0] == '-') {
        s.drop_first()
    } else {
        s
    }
}

/// The sequence is an integer literal: an optional sign, then at least one digit.
pub open spec fn is_int_literal(s: Seq<char>) -> bool {
    lit_body(s).len() > 0 && all_digits(lit_body(s))
}

/// The mathematical value of an integer literal.
pub open spec fn int_literal_val(s: Seq<char>) -> int {
    if s.len() > 0 && s[0] == '-' {
        -digits_val(lit_body(s))
    } else {
        digits_val(lit_body(s))
    }
}

proof fn lemma_digits_val_nonneg(s: Seq<char>)
    requires
        all_digits(s),
    ensures
        digits_val(s) >= 0,
    decreases s.len(),
{
    if s.len() > 0 {
        assert(all_digits(s.drop_last()));
        lemma_digits_val_nonneg(s.drop_last());
    }
}

proof fn lemma_digits_val_step(s: Seq<char>, i: int)
    requires
        0 <= i < s.len(),
    ensures
        digits_val(s.subrange(0, i + 1)) == digits_val(s.subrange(0, i)) * 10 + digit_of(s[i]),
{
    let t = s.subrange(0, i + 1);
    assert(t.drop_last() =~= s.subrange(0, i));
    assert(t.last() == s[i]);
}

proof fn lemma_digits_val_prefix_le(s: Seq<char>, i: int)
    requires
        all_digits(s),
        0 <= i <= s.len(),
    ensures
        digits_val(s.subrange(0, i)) <= digits_val(s),
    decreases s.len() - i,
{
    if i == s.len() {
        assert(s.subrange(0, i) =~= s);
    } else {
        lemma_digits_val_step(s, i);
        let p = s.subrange(0, i);
        assert(all_digits(p));
        lemma_digits_val_nonneg(p);
        assert(digits_val(p) * 10 >= digits_val(p)) by (nonlinear_arith)
            requires
                digits_val(p) >= 0,
        ;
        lemma_digits_val_prefix_le(s, i + 1);
    }
}

/// Parses a base-10 signed 64-bit integer: an optional `+` or `-` sign,
/// then one or more decimal digits, and the value must fit in `i64`.
pub fn parse_i64(s: &Vec<char>) -> (r: Option<i64>)
    ensures
        match r {
            Some(n) => is_int_literal(s@) && i64::MIN <= int_literal_val(s@) <= i64::MAX && n
                == int_literal_val(s@),
            None => !(is_int_literal(s@) && i64::MIN <= int_literal_val(s@) <= i64::MAX),
        },
{
    let mut start: usize = 0;
    let mut neg: bool = false;
    if s.len() > 0 && (s[0] == '+' || s[0] == '-') {
        neg = s[0] == '-';
        start = 1;
    }
    if s.len() == start {
        assert(lit_body(s@).len() == 0);
        return None;
    }
    let ghost body = lit_body(s@);
    assert(body =~= s@.subrange(start as int, s@.len() as int));
    let limit: u64 = if neg {
        9223372036854775808u64
    } else {
        9223372036854775807u64
    };
    let mut acc: u64 = 0;
    let mut i: usize = start;
    while i < s.len()
        invariant
            start <= i <= s@.len(),
            start <= 1,
            body == lit_body(s@),
            body == s@.subrange(start as int, s@.len() as int),
            body.len() == s@.len() - start,
            forall|j: int| 0 <= j < i - start ==> is_digit(body[j]),
            acc == digits_val(body.subrange(0, i - start)),
            acc <= limit,
            limit == 9223372036854775807u64 + if neg {
                1int
            } else {
                0int
            },
            neg == (s@.len() > 0 && s@[0] == '-'),
        decreases s@.len() - i,
    {
        let c = s[i];
        if c < '0' || c > '9' {
            assert(!is_digit(body[i - start]));
            return None;
        }
        let d: u64 = (c as u32 as u64) - 48;
        assert(d == digit_of(body[i - start]) && d < 10);
        proof {
            lemma_digits_val_step(body, i - start);
        }
        if acc > limit / 10 {
            proof {
                assert(acc * 10 + d > limit) by (nonlinear_arith)
                    requires
                        acc > limit / 10,
                        limit == 9223372036854775807u64 + if neg {
                            1int
                        } else {
                            0int
                        },
                        d >= 0,
                ;
                let pref = body.subrange(0, i - start + 1);
                assert(digits_val(pref) > limit);
                if is_int_literal(s@) {
                    lemma_digits_val_prefix_le(body, i - start + 1);
                    assert(digits_val(body) > limit);
                    lemma_digits_val_nonneg(body);
                    if neg {
                        assert(int_literal_val(s@) == -digits_val(body));
                        assert(int_literal_val(s@) < i64::MIN);
                    } else {
                        assert(int_literal_val(s@) == digits_val(body));
                        assert(int_literal_val(s@) > i64::MAX);
                    }
                }
            }
            return None;
        }
        assert(acc * 10 <= limit - limit % 10) by (nonlinear_arith)
            requires
                acc <= limit / 10,
                acc >= 0,
                limit >= 0,
        ;
        let acc2: u64 = acc * 10;
        if acc2 > limit - d {
            proof {
                let pref = body.subrange(0, i - start + 1);
                assert(digits_val(pref) > limit);
                if is_int_literal(s@) {
                    lemma_digits_val_prefix_le(body, i - start + 1);
                    lemma_digits_val_nonneg(body);
                }
            }
            return None;
        }
        acc = acc2 + d;
        i += 1;
    }
    proof {
        assert(body.subrange(0, body.len() as int) =~= body);
        assert(all_digits(body));
        assert(is_int_literal(s@));
    }
    if neg {
        if acc == 9223372036854775808u64 {
            assert(int_literal_val(s@) == i64::MIN);
            Some(i64::MIN)
        } else {
            let v: i64 = -(acc as i64);
            assert(v == int_literal_val(s@));
            Some(v)
        }
    } else {
        let v: i64 = acc as i64;
        assert(v == int_literal_val(s@));
        Some(v)
    }
}

} // verus!
