//! Decimal text of 64-bit integers: the canonical rendering, and the parser
//! that reads a value's text as an integer.

use vstd::prelude::*;

verus! {

/// Whether `c` is an ASCII decimal digit.
pub open spec fn is_digit(c: char) -> bool {
    '0' <= c && c <= '9'
}

/// The value of the ASCII decimal digit `c`.
pub open spec fn digit_value(c: char) -> int {
    c as int - '0' as int
}

/// The ASCII character of the decimal digit `d`.
pub open spec fn digit_char(d: nat) -> char {
    ((d + '0' as nat) as u8) as char
}

/// Whether `s` is made of decimal digits only.
pub open spec fn all_digits(s: Seq<char>) -> bool {
    forall|i: int| 0 <= i < s.len() ==> is_digit(#[trigger] s[i])
}

/// The number that the digit string `s` denotes (most significant digit first).
pub open spec fn digits_value(s: Seq<char>) -> int
    decreases s.len(),
{
    if s.len() == 0 {
        0
    } else {
        digits_value(s.drop_last()) * 10 + digit_value(s.last())
    }
}

/// The shortest decimal digits of `n`, most significant first.
pub open spec fn digits_of(n: nat) -> Seq<char>
    decreases n,
{
    if n < 10 {
        seq![digit_char(n)]
    } else {
        digits_of(n / 10).push(digit_char(n % 10))
    }
}

/// The canonical decimal text of `n`: a minus sign for negative numbers, then
/// the digits without leading zeros.
pub open spec fn decimal(n: i64) -> Seq<char> {
    if n < 0 {
        seq!['-'] + digits_of((-(n as int)) as nat)
    } else {
        digits_of(n as nat)
    }
}

/// The integer that `s` reads as: an optional `+` or `-`, then one or more
/// decimal digits, with a value in the range of `i64`; `None` for any other text.
pub open spec fn parse_decimal(s: Seq<char>) -> Option<i64> {
    let signed = s.len() > 0 && (s[0] == '-' || s[0] == '+');
    let body = if signed { s.drop_first() } else { s };
    let magnitude = digits_value(body);
    let v = if signed && s[0] == '-' { -magnitude } else { magnitude };
    if body.len() > 0 && all_digits(body) && i64::MIN <= v <= i64::MAX {
        Some(v as i64)
    } else {
        None
    }
}

proof fn lemma_digits_of(n: nat)
    ensures
        digits_of(n).len() > 0,
        all_digits(digits_of(n)),
        digits_value(digits_of(n)) == n,
    decreases n,
{
    let d = n % 10;
    assert(digit_value(digit_char(d)) == d);
    if n >= 10 {
        lemma_digits_of(n / 10);
        let s = digits_of(n);
        assert(s.drop_last() =~= digits_of(n / 10));
        assert(n == (n / 10) * 10 + d);
        assert(s.last() == digit_char(d));
        assert(digits_value(s) == digits_value(s.drop_last()) * 10 + digit_value(s.last()));
    } else {
        assert(digits_of(n).drop_last() =~= Seq::<char>::empty());
        assert(digits_value(digits_of(n)) == digits_value(Seq::<char>::empty()) * 10 + digit_value(digit_char(n)));
    }
}

/// Reading the canonical decimal text of an integer gives the integer back.
pub proof fn lemma_parse_decimal(n: i64)
    ensures
        parse_decimal(decimal(n)) == Some(n),
{
    if n < 0 {
        let m = (-(n as int)) as nat;
        lemma_digits_of(m);
        assert((seq!['-'] + digits_of(m)).drop_first() =~= digits_of(m));
    } else {
        lemma_digits_of(n as nat);
    }
}

proof fn lemma_digits_value_nonneg(s: Seq<char>)
    requires
        all_digits(s),
    ensures
        0 <= digits_value(s),
    decreases s.len(),
{
    if s.len() > 0 {
        lemma_digits_value_nonneg(s.drop_last());
    }
}

proof fn lemma_digits_value_grows(s: Seq<char>, i: int, j: int)
    requires
        all_digits(s),
        0 <= i <= j <= s.len(),
    ensures
        0 <= digits_value(s.subrange(0, i)) <= digits_value(s.subrange(0, j)),
    decreases j - i,
{
    if i < j {
        lemma_digits_value_grows(s, i, j - 1);
        assert(s.subrange(0, j).drop_last() =~= s.subrange(0, j - 1));
    } else {
        lemma_digits_value_nonneg(s.subrange(0, i));
    }
}

fn push_digits(n: u64, out: &mut Vec<char>)
    ensures
        final(out)@ == old(out)@ + digits_of(n as nat),
    decreases n,
{
    if n >= 10 {
        push_digits(n / 10, out);
    }
    let d = (n % 10) as u8;
    out.push((d + 48u8) as char);
    proof {
        assert(digits_of(n as nat) == if n < 10 { seq![digit_char(n as nat)] } else {
            digits_of((n / 10) as nat).push(digit_char((n % 10) as nat))
        });
    }
}

/// The canonical decimal text of `n`.
pub fn format_decimal(n: i64) -> (r: Vec<char>)
    ensures
        r@ == decimal(n),
{
    let mut out: Vec<char> = Vec::new();
    if n < 0 {
        out.push('-');
        let m: u64 = ((-(n + 1)) as u64) + 1;
        push_digits(m, &mut out);
    } else {
        push_digits(n as u64, &mut out);
    }
    proof {
        assert(out@ =~= decimal(n));
    }
    out
}

/// Reads `s` as an integer, as `parse_decimal` describes.
pub fn read_decimal(s: &Vec<char>) -> (r: Option<i64>)
    ensures
        r == parse_decimal(s@),
{
    let len = s.len();
    let signed = len > 0 && (s[0] == '-' || s[0] == '+');
    let negative = signed && s[0] == '-';
    let start: usize = if signed { 1 } else { 0 };
    let ghost body = s@.subrange(start as int, len as int);
    proof {
        if signed {
            assert(body =~= s@.drop_first());
        } else {
            assert(body =~= s@);
        }
    }
    if start == len {
        return None;
    }
    let mut acc: i64 = 0;
    let mut i: usize = start;
    while i < len
        invariant
            start <= i <= len,
            len == s@.len(),
            body == s@.subrange(start as int, len as int),
            signed == (s@.len() > 0 && (s@[0] == '-' || s@[0] == '+')),
            negative == (signed && s@[0] == '-'),
            start == (if signed { 1usize } else { 0usize }),
            body == (if signed { s@.drop_first() } else { s@ }),
            all_digits(body.subrange(0, i - start)),
            acc == (if negative {
                -digits_value(body.subrange(0, i - start))
            } else {
                digits_value(body.subrange(0, i - start))
            }),
        decreases len - i,
    {
        let c = s[i];
        if !('0' <= c && c <= '9') {
            assert(body[i - start] == c);
            assert(!all_digits(body));
            return None;
        }
        let d = (c as u32 - 48) as i64;
        let ghost k = (i - start) as int;
        proof {
            assert(body.subrange(0, k + 1).drop_last() =~= body.subrange(0, k));
            assert(all_digits(body.subrange(0, k + 1)));
            assert(body[k] == c);
            assert(digits_value(body.subrange(0, k + 1)) == digits_value(body.subrange(0, k)) * 10
                + d);
        }
        let next = match acc.checked_mul(10) {
            Some(m) => if negative { m.checked_sub(d) } else { m.checked_add(d) },
            None => None,
        };
        match next {
            Some(v) => {
                acc = v;
            },
            None => {
                proof {
                    if all_digits(body) {
                        lemma_digits_value_grows(body, k + 1, body.len() as int);
                        assert(body.subrange(0, body.len() as int) =~= body);
                        assert(digits_value(body) >= digits_value(body.subrange(0, k + 1)));
                        if negative {
                            assert(-digits_value(body) < i64::MIN);
                        } else {
                            assert(digits_value(body) > i64::MAX);
                        }
                    }
                }
                return None;
            },
        }
        i = i + 1;
    }
    proof {
        assert(body.subrange(0, len - start) =~= body);
    }
    Some(acc)
}

} // verus!
