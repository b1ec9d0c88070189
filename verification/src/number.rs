//! Writing and reading integers as text.
use vstd::prelude::*;
use crate::text::{
    all_digits, chars_of, decimal, digit_char, digits, digits_value, hex, is_digit,
    lemma_digits_value_monotone, parses_as_i64, push_char, signed_value, unsigned_part,
};

verus! {

fn digit(d: u64) -> (c: char)
    requires
        d < 16,
    ensures
        c == digit_char(d as nat),
{
    let b = d as u8;
    if b < 10 {
        (48 + b) as char
    } else {
        (87 + b) as char
    }
}

/// Appends the digits of `n` in base `base`.
pub fn push_digits(s: &mut String, n: u64, base: u64)
    requires
        2 <= base <= 16,
    ensures
        final(s)@ == old(s)@ + digits(n as nat, base as nat),
    decreases n,
{
    if n >= base {
        assert(n / base < n) by (nonlinear_arith)
            requires
                base >= 2,
                n >= base,
        ;
        push_digits(s, n / base, base);
    }
    proof {
        assert(n % base < 16);
        if n < base {
            assert(n % base == n && n % 16 == n) by (nonlinear_arith)
                requires
                    n < base,
                    base <= 16,
            ;
        }
    }
    push_char(s, digit(n % base));
}

/// Appends the decimal form of `n`.
pub fn push_decimal(s: &mut String, n: i64)
    ensures
        final(s)@ == old(s)@ + decimal(n as int),
{
    if n < 0 {
        push_char(s, '-');
        let m = (-(n as i128)) as u64;
        push_digits(s, m, 10);
        assert(old(s)@.push('-') + digits(m as nat, 10) =~= old(s)@ + (seq!['-'] + digits(
            m as nat,
            10,
        )));
    } else {
        push_digits(s, n as u64, 10);
    }
}

/// The decimal form of `n`, as `n.to_string()` writes it.
pub fn decimal_string(n: i64) -> (r: String)
    ensures
        r@ == decimal(n as int),
{
    let mut s = String::new();
    push_decimal(&mut s, n);
    assert(Seq::<char>::empty() + decimal(n as int) =~= decimal(n as int));
    s
}

/// The lower-case hexadecimal form of a byte, as `{:x}` writes it.
pub fn hex_string(b: u8) -> (r: String)
    ensures
        r@ == hex(b as nat),
{
    let mut s = String::new();
    push_digits(&mut s, b as u64, 16);
    assert(Seq::<char>::empty() + hex(b as nat) =~= hex(b as nat));
    s
}

/// Reads an `i64` the way `str::parse::<i64>` does: an optional sign, then
/// decimal digits only, with the value in range.
pub fn parse_i64(text: &str) -> (r: Option<i64>)
    ensures
        r is Some <==> parses_as_i64(text@),
        r matches Some(v) ==> v == signed_value(text@),
{
    let cs = chars_of(text);
    let ghost s = cs@;
    let n = cs.len();
    let neg = n > 0 && cs[0] == '-';
    let start: usize = if n > 0 && (cs[0] == '-' || cs[0] == '+') {
        1
    } else {
        0
    };
    let ghost body = unsigned_part(s);
    assert(body =~= s.subrange(start as int, n as int));
    if start == n {
        return None;
    }
    let limit: u128 = 0x8000_0000_0000_0000;
    let mut acc: u128 = 0;
    let mut i: usize = start;
    assert(body.take(0) =~= Seq::<char>::empty());
    while i < n
        invariant
            start <= i <= n == s.len(),
            s == cs@,
            s == text@,
            body == unsigned_part(s),
            body == s.subrange(start as int, n as int),
            acc == digits_value(body.take(i - start)),
            all_digits(body.take(i - start)),
            acc <= limit,
            limit == 0x8000_0000_0000_0000u128,
        decreases n - i,
    {
        let c = cs[i];
        let ghost k = (i - start) as int;
        assert(body[k] == c);
        if !((c as u32) >= 48 && (c as u32) <= 57) {
            assert(!all_digits(body)) by {
                assert(!is_digit(body[k]));
            }
            return None;
        }
        let d = ((c as u32) - 48) as u128;
        proof {
            assert(body.take(k + 1).drop_last() =~= body.take(k));
            assert(body.take(k + 1).last() == c);
            assert(all_digits(body.take(k + 1))) by {
                assert forall|j: int| 0 <= j < k + 1 implies is_digit(#[trigger] body.take(k + 1)[j]) by {
                    if j < k {
                        assert(body.take(k + 1)[j] == body.take(k)[j]);
                    }
                }
            }
        }
        acc = acc * 10 + d;
        i = i + 1;
        if acc > limit {
            proof {
                if all_digits(body) {
                    lemma_digits_value_monotone(body, k + 1);
                }
            }
            return None;
        }
    }
    assert(body.take(n - start) =~= body);
    if neg {
        let v = -(acc as i128);
        Some(v as i64)
    } else if acc < limit {
        Some(acc as i64)
    } else {
        None
    }
}

} // verus!
