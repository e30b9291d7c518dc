//! Decimal numerals: reading an index or a width from a token, and writing
//! an index for display.

use vstd::prelude::*;
use vstd::string::*;

verus! {

pub open spec fn is_digit(c: char) -> bool {
    48 <= c as u32 && c as u32 <= 57
}

pub open spec fn digit_value(c: char) -> nat {
    (c as u32 - 48) as nat
}

/// The value of a string of decimal digits, most significant first.
pub open spec fn digits_value(s: Seq<char>) -> nat
    decreases s.len(),
{
    if s.len() == 0 {
        0
    } else {
        digits_value(s.drop_last()) * 10 + digit_value(s.last())
    }
}

/// The digits of a numeral: what follows an optional leading `+`.
pub open spec fn numeral_digits(s: Seq<char>) -> Seq<char> {
    if s.len() > 0 && s[0] == '+' {
        s.drop_first()
    } else {
        s
    }
}

/// `s` is an optional `+` followed by one or more decimal digits.
pub open spec fn is_numeral(s: Seq<char>) -> bool {
    let d = numeral_digits(s);
    d.len() > 0 && forall|i: int| 0 <= i < d.len() ==> is_digit(#[trigger] d[i])
}

/// What `usize::from_str` gives for `s`: the value of a numeral that fits in
/// `usize`, else nothing.
pub open spec fn parse_usize_spec(s: Seq<char>) -> Option<usize> {
    if is_numeral(s) && digits_value(numeral_digits(s)) <= usize::MAX {
        Some(digits_value(numeral_digits(s)) as usize)
    } else {
        None
    }
}

proof fn lemma_value_prefix(d: Seq<char>, i: int)
    requires
        0 <= i <= d.len(),
    ensures
        digits_value(d.subrange(0, i)) <= digits_value(d),
    decreases d.len(),
{
    if i < d.len() {
        assert(d.drop_last().subrange(0, i) =~= d.subrange(0, i));
        lemma_value_prefix(d.drop_last(), i);
    } else {
        assert(d.subrange(0, i) =~= d);
    }
}

/// Reads a non-negative integer as `usize::from_str` does.
pub fn parse_usize(s: &str) -> (r: Option<usize>)
    ensures
        r == parse_usize_spec(s@),
{
    let n = s.unicode_len();
    let mut i: usize = 0;
    if n > 0 && s.get_char(0) == '+' {
        i = 1;
    }
    let ghost first = i as int;
    let ghost d = numeral_digits(s@);
    assert(d =~= s@.subrange(first, n as int));
    if i == n {
        return None;
    }
    let mut v: usize = 0;
    while i < n
        invariant
            n == s@.len(),
            0 <= first <= 1,
            first <= i <= n,
            d == s@.subrange(first, n as int),
            d == numeral_digits(s@),
            forall|k: int| 0 <= k < i - first ==> is_digit(#[trigger] d[k]),
            v == digits_value(d.subrange(0, i - first)),
        decreases n - i,
    {
        let c = s.get_char(i);
        if !(48 <= c as u32 && c as u32 <= 57) {
            assert(d[i - first] == c);
            assert(!is_digit(d[i - first]));
            return None;
        }
        assert(d[i - first] == c);
        let ghost pre = d.subrange(0, i - first);
        assert(d.subrange(0, i - first + 1).drop_last() =~= pre);
        let dv = (c as u32 - 48) as usize;
        assert(d.subrange(0, i - first + 1).last() == c);
        assert(digits_value(d.subrange(0, i - first + 1)) == v * 10 + dv);
        match v.checked_mul(10) {
            Some(t) => match t.checked_add(dv) {
                Some(u) => {
                    v = u;
                },
                None => {
                    proof {
                        lemma_value_prefix(d, i - first + 1);
                    }
                    return None;
                },
            },
            None => {
                proof {
                    lemma_value_prefix(d, i - first + 1);
                }
                return None;
            },
        }
        i = i + 1;
    }
    assert(d.subrange(0, n - first) =~= d);
    Some(v)
}

pub open spec fn digit_char(d: nat) -> char {
    (d + 48) as char
}

/// The decimal numeral of `n`, without leading zeros.
pub open spec fn decimal(n: nat) -> Seq<char>
    decreases n,
{
    if n < 10 {
        seq![digit_char(n)]
    } else {
        decimal(n / 10).push(digit_char(n % 10))
    }
}

/// Appends the decimal numeral of `n` to `out`.
pub fn push_decimal(out: &mut String, n: usize)
    ensures
        final(out)@ == old(out)@ + decimal(n as nat),
    decreases n,
{
    if n >= 10 {
        push_decimal(out, n / 10);
    }
    let digits = "0123456789";
    proof {
        reveal_strlit("0123456789");
    }
    let d = n % 10;
    let one = digits.substring_char(d, d + 1);
    assert(one@ =~= seq![digit_char(d as nat)]);
    out.append(one);
    assert(out@ =~= old(out)@ + decimal(n as nat));
}

} // verus!
