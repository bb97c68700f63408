//! Decimal text for unsigned integers.
//!
//! Query parameters and the `Retry-After` header carry numbers as decimal
//! text. This module fixes what that text is ([`decimal`]) and which texts
//! count as a number ([`parsed_u64`]), and proves that the two agree.

use vstd::prelude::*;

verus! {

/// `String::push` appends one character to the string.
pub assume_specification[ String::push ](s: &mut String, c: char)
    ensures
        final(s)@ == old(s)@.push(c),
;

/// The character that stands for the digit `d`, for `d < 10`.
pub open spec fn digit_char(d: nat) -> char {
    (48 + d) as char
}

/// Whether `c` is one of `'0'..='9'`.
pub open spec fn is_digit(c: char) -> bool {
    '0' <= c && c <= '9'
}

/// The value of the digit `c`.
pub open spec fn digit_value(c: char) -> nat {
    (c as nat - 48) as nat
}

/// The decimal text of `n`: most significant digit first, no sign, no leading zero
/// (but `"0"` for zero).
pub open spec fn decimal(n: nat) -> Seq<char>
    decreases n,
{
    if n < 10 {
        seq![digit_char(n)]
    } else {
        decimal(n / 10).push(digit_char(n % 10))
    }
}

/// Whether every character of `s` is a decimal digit.
pub open spec fn all_digits(s: Seq<char>) -> bool {
    forall|i: int| 0 <= i < s.len() ==> is_digit(#[trigger] s[i])
}

/// The number that a run of decimal digits stands for (zero for the empty run).
pub open spec fn digits_value(s: Seq<char>) -> nat
    decreases s.len(),
{
    if s.len() == 0 {
        0
    } else {
        digits_value(s.drop_last()) * 10 + digit_value(s.last())
    }
}

/// The part of `s` that must consist of digits: `s` without one leading `'+'`.
pub open spec fn unsigned_body(s: Seq<char>) -> Seq<char> {
    if s.len() > 0 && s[0] == '+' {
        s.subrange(1, s.len() as int)
    } else {
        s
    }
}

/// What a text means as a `u64`: an optional `'+'`, then one or more decimal
/// digits whose value fits in 64 bits. Anything else, blanks included, is no number.
pub open spec fn parsed_u64(s: Seq<char>) -> Option<u64> {
    let body = unsigned_body(s);
    if body.len() > 0 && all_digits(body) && digits_value(body) <= u64::MAX {
        Some(digits_value(body) as u64)
    } else {
        None
    }
}

/// The decimal text of a number is never empty and holds digits only.
pub proof fn lemma_decimal_digits(n: nat)
    ensures
        decimal(n).len() > 0,
        all_digits(decimal(n)),
    decreases n,
{
    if n >= 10 {
        lemma_decimal_digits(n / 10);
        let head = decimal(n / 10);
        let d = digit_char(n % 10);
        assert forall|i: int| 0 <= i < decimal(n).len() implies is_digit(
            #[trigger] decimal(n)[i],
        ) by {
            if i < head.len() {
                assert(decimal(n)[i] == head[i]);
            } else {
                assert(decimal(n)[i] == d);
            }
        }
    }
}

/// Reading the decimal text of `n` as digits gives `n` back.
pub proof fn lemma_decimal_value(n: nat)
    ensures
        digits_value(decimal(n)) == n,
    decreases n,
{
    if n < 10 {
        let s = decimal(n);
        assert(s.drop_last() =~= Seq::<char>::empty());
        assert(digits_value(s.drop_last()) == 0);
        assert(s.last() == digit_char(n));
    } else {
        lemma_decimal_value(n / 10);
        let s = decimal(n);
        assert(s.drop_last() =~= decimal(n / 10));
        assert(s.last() == digit_char(n % 10));
    }
}

/// Decimal text round-trips: parsing what `decimal` wrote gives the number back.
pub proof fn lemma_parse_decimal(n: u64)
    ensures
        parsed_u64(decimal(n as nat)) == Some(n),
{
    lemma_decimal_digits(n as nat);
    lemma_decimal_value(n as nat);
    let s = decimal(n as nat);
    assert(is_digit(s[0]));
    assert(unsigned_body(s) == s);
}

/// A run of digits is worth at least as much as any of its prefixes.
pub proof fn lemma_digits_value_prefix(s: Seq<char>, k: int)
    requires
        0 <= k <= s.len(),
    ensures
        digits_value(s.take(k)) <= digits_value(s),
    decreases s.len() - k,
{
    if k < s.len() {
        lemma_digits_value_prefix(s, k + 1);
        let longer = s.take(k + 1);
        assert(longer.drop_last() =~= s.take(k));
    } else {
        assert(s.take(k) =~= s);
    }
}

/// Writes `n` in decimal.
pub fn u64_to_string(n: u64) -> (out: String)
    ensures
        out@ == decimal(n as nat),
{
    let mut digits: Vec<char> = Vec::new();
    let mut rest: u64 = n;
    // Least significant digit first, then reversed into the string.
    while rest >= 10
        invariant
            decimal(n as nat) == decimal(rest as nat) + digits@.reverse(),
        decreases rest,
    {
        let d: u8 = (rest % 10) as u8;
        let ghost before = digits@;
        digits.push((48u8 + d) as char);
        proof {
            let c = digit_char((rest % 10) as nat);
            assert(digits@.reverse() =~= seq![c] + before.reverse());
            assert(decimal(rest as nat) == decimal((rest / 10) as nat).push(c));
            assert(decimal((rest / 10) as nat).push(c) + before.reverse() =~= decimal(
                (rest / 10) as nat,
            ) + digits@.reverse());
        }
        rest = rest / 10;
    }
    let mut out = String::new();
    out.push((48u8 + (rest as u8)) as char);
    let mut i: usize = digits.len();
    while i > 0
        invariant
            i <= digits.len(),
            out@ == decimal(rest as nat) + digits@.reverse().take(digits.len() - i),
        decreases i,
    {
        i = i - 1;
        out.push(digits[i]);
        proof {
            let r = digits@.reverse();
            let k = digits.len() - i - 1;
            assert(r[k] == digits@[i as int]);
            assert(r.take(k + 1) =~= r.take(k).push(r[k]));
            assert(out@ =~= decimal(rest as nat) + r.take(k + 1));
        }
    }
    proof {
        assert(digits@.reverse().take(digits.len() as int) =~= digits@.reverse());
    }
    out
}

/// Reads `text` as a `u64`; `None` where it is no number or does not fit.
pub fn parse_u64(text: &str) -> (out: Option<u64>)
    ensures
        out == parsed_u64(text@),
{
    let ghost body = unsigned_body(text@);
    let ghost skip: int = text@.len() - body.len();
    let ghost mut seen: int = 0;
    let mut value: u64 = 0;
    let mut first = true;
    let mut any = false;
    for c in it: text.chars()
        invariant
            it.seq() == text@,
            body == unsigned_body(text@),
            skip == text@.len() - body.len(),
            first <==> it.index() == 0,
            any <==> seen > 0,
            seen == if it.index() >= skip { it.index() - skip } else { 0 },
            all_digits(body.take(seen)),
            value == digits_value(body.take(seen)),
    {
        if first && c == '+' {
            first = false;
            proof {
                assert(body.take(0) =~= Seq::<char>::empty());
            }
        } else {
            first = false;
            proof {
                assert(body[seen] == c);
                assert(body.take(seen + 1).drop_last() =~= body.take(seen));
                lemma_digits_value_prefix(body, seen + 1);
            }
            if c < '0' || c > '9' {
                return None;
            }
            let d: u64 = (c as u64) - 48;
            let shifted = match value.checked_mul(10) {
                Some(v) => v,
                None => {
                    return None;
                },
            };
            value = match shifted.checked_add(d) {
                Some(v) => v,
                None => {
                    return None;
                },
            };
            any = true;
            proof {
                assert forall|i: int| 0 <= i < seen + 1 implies is_digit(
                    #[trigger] body.take(seen + 1)[i],
                ) by {
                    if i < seen {
                        assert(body.take(seen)[i] == body[i]);
                    }
                }
                seen = seen + 1;
            }
        }
    }
    proof {
        assert(body.take(body.len() as int) =~= body);
    }
    if any {
        Some(value)
    } else {
        None
    }
}

} // verus!
