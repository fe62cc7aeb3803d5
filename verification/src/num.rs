//! Decimal formatting and radix parsing of small unsigned integers, as
//! `Display` and `u8::from_str_radix` behave.

use vstd::prelude::*;
use crate::text::string_of;

verus! {

/// Value of `c` as a digit in `radix` (2..=36), if it is one.
pub open spec fn digit_value(c: char, radix: nat) -> Option<nat> {
    let v: int = if '0' <= c && c <= '9' {
        (c as int) - ('0' as int)
    } else if 'a' <= c && c <= 'z' {
        (c as int) - ('a' as int) + 10
    } else if 'A' <= c && c <= 'Z' {
        (c as int) - ('A' as int) + 10
    } else {
        99
    };
    if v < radix {
        Some(v as nat)
    } else {
        None
    }
}

/// Every character of `d` is a digit in `radix`.
pub open spec fn all_digits(d: Seq<char>, radix: nat) -> bool {
    forall|i: int| 0 <= i < d.len() ==> digit_value(#[trigger] d[i], radix) is Some
}

/// Value of the digit string `d` in `radix`.
pub open spec fn digits_value(d: Seq<char>, radix: nat) -> nat
    decreases d.len(),
{
    if d.len() == 0 {
        0
    } else {
        digits_value(d.drop_last(), radix) * radix + digit_value(d.last(), radix).unwrap_or(0)
    }
}

/// `u8::from_str_radix(s, radix)`: an optional `'+'` followed by at least one
/// digit of the radix, whose value fits in a `u8`.
pub open spec fn parse_u8_spec(s: Seq<char>, radix: nat) -> Option<u8> {
    let d = if s.len() > 0 && s[0] == '+' {
        s.drop_first()
    } else {
        s
    };
    if d.len() == 0 || !all_digits(d, radix) || digits_value(d, radix) > 255 {
        None
    } else {
        Some(digits_value(d, radix) as u8)
    }
}

/// Decimal representation of `n` without leading zeros.
pub open spec fn decimal_spec(n: nat) -> Seq<char>
    decreases n,
{
    if n < 10 {
        seq![((n + 48) as u32) as char]
    } else {
        decimal_spec(n / 10) + seq![(((n % 10) + 48) as u32) as char]
    }
}

proof fn lemma_digits_value_monotone(d: Seq<char>, k: int, radix: nat)
    requires
        0 <= k <= d.len(),
        radix >= 1,
    ensures
        digits_value(d, radix) >= digits_value(d.take(k), radix),
    decreases d.len(),
{
    if k < d.len() {
        assert(d.drop_last().take(k) =~= d.take(k));
        lemma_digits_value_monotone(d.drop_last(), k, radix);
        assert(digits_value(d, radix) >= digits_value(d.drop_last(), radix)) by (nonlinear_arith)
            requires
                digits_value(d, radix) == digits_value(d.drop_last(), radix) * radix
                    + digit_value(d.last(), radix).unwrap_or(0),
                radix >= 1,
        ;
    } else {
        assert(d.take(k) =~= d);
    }
}

/// The value of one digit character, if it is a digit of `radix`.
pub fn char_digit(c: char, radix: u32) -> (r: Option<u32>)
    requires
        2 <= radix <= 36,
    ensures
        r matches Some(v) ==> digit_value(c, radix as nat) == Some(v as nat),
        r is None ==> digit_value(c, radix as nat) is None,
{
    let v: u32 = if '0' <= c && c <= '9' {
        (c as u32) - ('0' as u32)
    } else if 'a' <= c && c <= 'z' {
        (c as u32) - ('a' as u32) + 10
    } else if 'A' <= c && c <= 'Z' {
        (c as u32) - ('A' as u32) + 10
    } else {
        99
    };
    if v < radix {
        Some(v)
    } else {
        None
    }
}

/// `u8::from_str_radix` over a character vector.
pub fn parse_u8_radix(s: &Vec<char>, radix: u32) -> (r: Option<u8>)
    requires
        2 <= radix <= 36,
    ensures
        r == parse_u8_spec(s@, radix as nat),
{
    let start: usize = if s.len() > 0 && s[0] == '+' {
        1
    } else {
        0
    };
    let ghost d = if s@.len() > 0 && s@[0] == '+' {
        s@.drop_first()
    } else {
        s@
    };
    assert(d =~= s@.skip(start as int));
    if start >= s.len() {
        return None;
    }
    let mut acc: u32 = 0;
    let mut i: usize = start;
    assert(d.take(0) =~= Seq::<char>::empty());
    while i < s.len()
        invariant
            2 <= radix <= 36,
            start <= i <= s.len(),
            d == s@.skip(start as int),
            d == (if s@.len() > 0 && s@[0] == '+' {
                s@.drop_first()
            } else {
                s@
            }),
            d.len() > 0,
            all_digits(d.take(i - start), radix as nat),
            acc as nat == digits_value(d.take(i - start), radix as nat),
            acc <= 255,
        decreases s.len() - i,
    {
        let ghost k = i - start;
        assert(d.take(k + 1).drop_last() =~= d.take(k));
        assert(d.take(k + 1).last() == s@[i as int]);
        match char_digit(s[i], radix) {
            None => {
                assert(d[k] == s@[i as int]);
                assert(digit_value(d[k], radix as nat) is None);
                assert(!all_digits(d, radix as nat));
                return None;
            },
            Some(v) => {
                assert(acc * radix + v <= 255 * 36 + 36) by (nonlinear_arith)
                    requires
                        acc <= 255,
                        radix <= 36,
                        v < radix,
                ;
                let next = acc * radix + v;
                assert(digits_value(d.take(k + 1), radix as nat) == next as nat);
                i = i + 1;
                assert(all_digits(d.take(i - start), radix as nat)) by {
                    assert forall|j: int| 0 <= j < d.take(i - start).len() implies digit_value(
                        #[trigger] d.take(i - start)[j],
                        radix as nat,
                    ) is Some by {
                        if j < k {
                            assert(d.take(i - start)[j] == d.take(k)[j]);
                        }
                    }
                }
                if next > 255 {
                    proof {
                        lemma_digits_value_monotone(d, i - start, radix as nat);
                    }
                    assert(digits_value(d, radix as nat) > 255);
                    return None;
                }
                acc = next;
            },
        }
    }
    assert(d.take(i - start) =~= d);
    Some(acc as u8)
}

/// Decimal formatting of an unsigned integer (`Display` for `u64`).
pub fn decimal(n: u64) -> (s: String)
    ensures
        s@ == decimal_spec(n as nat),
{
    let mut digits: Vec<char> = Vec::new();
    let mut m: u64 = n;
    let ghost mut rest: Seq<char> = Seq::empty();
    // digits holds the low-order digits in reverse order
    while m >= 10
        invariant
            decimal_spec(n as nat) == decimal_spec(m as nat) + rest,
            digits@.len() == rest.len(),
            forall|j: int| 0 <= j < rest.len() ==> #[trigger] digits@[j] == rest[rest.len() - 1 - j],
        decreases m,
    {
        let c: char = (((m % 10) as u8) + 48) as char;
        digits.push(c);
        proof {
            assert(decimal_spec(m as nat) =~= decimal_spec((m / 10) as nat) + seq![c]);
            rest = seq![c] + rest;
        }
        m = m / 10;
        proof {
            assert(decimal_spec(n as nat) =~= decimal_spec(m as nat) + rest);
        }
    }
    let c: char = ((m as u8) + 48) as char;
    let ghost old_rest = rest;
    digits.push(c);
    proof {
        rest = seq![c] + rest;
        assert(decimal_spec(m as nat) =~= seq![c]);
        assert forall|j: int| 0 <= j < rest.len() implies #[trigger] digits@[j] == rest[rest.len() - 1 - j] by {
            if j < old_rest.len() {
                assert(digits@[j] == old_rest[old_rest.len() - 1 - j]);
            }
        }
    }
    assert(decimal_spec(n as nat) =~= rest);
    let mut out: Vec<char> = Vec::new();
    let mut k: usize = digits.len();
    while k > 0
        invariant
            k <= digits@.len(),
            digits@.len() == rest.len(),
            forall|j: int| 0 <= j < rest.len() ==> #[trigger] digits@[j] == rest[rest.len() - 1 - j],
            out@ == rest.take(rest.len() - k),
        decreases k,
    {
        k = k - 1;
        out.push(digits[k]);
        assert(out@ =~= rest.take(rest.len() - k));
    }
    assert(out@ =~= rest);
    string_of(&out)
}

} // verus!
