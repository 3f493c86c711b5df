//! Decimal numbers in text: reading them as `str::parse::<u64>` does, and writing them.

use vstd::prelude::*;

verus! {

pub open spec fn is_digit(c: char) -> bool {
    '0' <= c && c <= '9'
}

pub open spec fn digit_value(c: char) -> nat {
    ((c as u32) - ('0' as u32)) as nat
}

/// The number the decimal digits `d` spell.
pub open spec fn digits_value(d: Seq<char>) -> nat
    decreases d.len(),
{
    if d.len() == 0 {
        0
    } else {
        digits_value(d.drop_last()) * 10 + digit_value(d.last())
    }
}

pub open spec fn all_digits(d: Seq<char>) -> bool {
    forall|i: int| 0 <= i < d.len() ==> is_digit(#[trigger] d[i])
}

/// The text after an optional leading `+`.
pub open spec fn unsigned_digits(s: Seq<char>) -> Seq<char> {
    if s.len() > 0 && s[0] == '+' {
        s.skip(1)
    } else {
        s
    }
}

/// What `str::parse::<u64>` gives: an optional `+`, then at least one decimal digit, and a value
/// that fits.
pub open spec fn parse_u64_spec(s: Seq<char>) -> Option<u64> {
    let d = unsigned_digits(s);
    if d.len() > 0 && all_digits(d) && digits_value(d) <= u64::MAX {
        Some(digits_value(d) as u64)
    } else {
        None
    }
}

proof fn lemma_digits_value_grows(d: Seq<char>, i: int, j: int)
    requires
        0 <= i <= j <= d.len(),
        all_digits(d),
    ensures
        digits_value(d.take(i)) <= digits_value(d.take(j)),
    decreases j - i,
{
    if i < j {
        lemma_digits_value_grows(d, i, j - 1);
        assert(d.take(j).drop_last() =~= d.take(j - 1));
    }
}

/// Reads an unsigned decimal number as `str::parse::<u64>` does.
pub fn parse_u64(s: &[char]) -> (r: Option<u64>)
    ensures
        r == parse_u64_spec(s@),
{
    let start: usize = if s.len() > 0 && s[0] == '+' {
        1
    } else {
        0
    };
    let ghost d = unsigned_digits(s@);
    assert(d =~= s@.skip(start as int));
    if start >= s.len() {
        return None;
    }
    let mut value: u64 = 0;
    let mut i: usize = start;
    while i < s.len()
        invariant
            start <= i <= s.len(),
            d == s@.skip(start as int),
            d == unsigned_digits(s@),
            forall|j: int| start <= j < i ==> is_digit(#[trigger] s@[j]),
            value == digits_value(d.take(i - start)),
        decreases s.len() - i,
    {
        let c = s[i];
        proof {
            assert(d.take(i + 1 - start).drop_last() =~= d.take(i - start));
            assert(d.take(i + 1 - start).last() == c);
        }
        if !('0' <= c && c <= '9') {
            assert(!is_digit(d[i - start]));
            assert(!all_digits(d));
            return None;
        }
        let digit = (c as u32 - '0' as u32) as u64;
        let next = match value.checked_mul(10) {
            Some(v) => v.checked_add(digit),
            None => None,
        };
        match next {
            Some(v) => {
                value = v;
            },
            None => {
                proof {
                    assert(digits_value(d.take(i + 1 - start)) > u64::MAX);
                    if all_digits(d) {
                        lemma_digits_value_grows(d, i + 1 - start, d.len() as int);
                        assert(d.take(d.len() as int) =~= d);
                    }
                }
                return None;
            },
        }
        i = i + 1;
    }
    proof {
        assert(d.take(s@.len() - start) =~= d);
        assert forall|j: int| 0 <= j < d.len() implies is_digit(#[trigger] d[j]) by {
            assert(d[j] == s@[start + j]);
        }
    }
    Some(value)
}

pub open spec fn digit_char(n: nat) -> char {
    (('0' as u32) + n) as char
}

/// The decimal digits of `n`, without leading zeros.
pub open spec fn decimal_spec(n: nat) -> Seq<char>
    decreases n,
{
    if n < 10 {
        seq![digit_char(n)]
    } else {
        decimal_spec(n / 10).push(digit_char(n % 10))
    }
}

/// `n` written in decimal.
pub fn decimal(n: u64) -> (text: Vec<char>)
    ensures
        text@ == decimal_spec(n as nat),
    decreases n,
{
    let c = char_of_digit((n % 10) as u32);
    if n < 10 {
        vec![c]
    } else {
        let mut head = decimal(n / 10);
        head.push(c);
        head
    }
}

fn char_of_digit(d: u32) -> (c: char)
    requires
        d < 10,
    ensures
        c == digit_char(d as nat),
{
    if d == 0 { '0' } else if d == 1 { '1' } else if d == 2 { '2' } else if d == 3 { '3' }
    else if d == 4 { '4' } else if d == 5 { '5' } else if d == 6 { '6' } else if d == 7 { '7' }
    else if d == 8 { '8' } else { '9' }
}

} // verus!
