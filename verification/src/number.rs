//! Whole numbers and their decimal notation.
use vstd::prelude::*;

use crate::text::chars_of;

verus! {

/// The decimal digit of a number below ten.
pub open spec fn digit_char(n: nat) -> char {
    (('0' as u8 + n) as u8) as char
}

/// The decimal notation of a number.
pub open spec fn decimal(n: nat) -> Seq<char>
    decreases n,
{
    if n < 10 {
        seq![digit_char(n)]
    } else {
        decimal(n / 10).push(digit_char(n % 10))
    }
}

/// The decimal notation of a number.
pub fn decimal_text(n: u128) -> (r: String)
    ensures
        r@ == decimal(n as nat),
    decreases n,
{
    let mut out = if n < 10 {
        String::new()
    } else {
        decimal_text(n / 10)
    };
    let d: u8 = (n % 10) as u8;
    out.push((48 + d) as char);
    out
}

/// The character is one of `0` to `9`.
pub open spec fn is_digit(c: char) -> bool {
    '0' <= c <= '9'
}

/// There is at least one character and each is a digit.
pub open spec fn all_digits(s: Seq<char>) -> bool {
    s.len() > 0 && forall|i: int| 0 <= i < s.len() ==> is_digit(#[trigger] s[i])
}

/// The number that the digits write in decimal notation.
pub open spec fn digits_value(s: Seq<char>) -> int
    decreases s.len(),
{
    if s.len() == 0 {
        0
    } else {
        digits_value(s.drop_last()) * 10 + (s.last() as int - '0' as int)
    }
}

/// The number that a text writes: digits, behind a `+`, a `-` or no sign, within
/// the range of `i64`.
pub open spec fn written_number(s: Seq<char>) -> Option<int> {
    let negative = s.len() > 0 && s[0] == '-';
    let signed = negative || (s.len() > 0 && s[0] == '+');
    let digits = if signed {
        s.skip(1)
    } else {
        s
    };
    let value = if negative {
        -digits_value(digits)
    } else {
        digits_value(digits)
    };
    if all_digits(digits) && i64::MIN <= value <= i64::MAX {
        Some(value)
    } else {
        None
    }
}

/// The number that a text writes: digits, behind a `+`, a `-` or no sign, within
/// the range of `i64`.
pub fn parse_i64(text: &str) -> (r: Option<i64>)
    ensures
        match r {
            Some(n) => written_number(text@) == Some(n as int),
            None => written_number(text@) is None,
        },
{
    let c = chars_of(text);
    let negative: bool = c.len() > 0 && c[0] == '-';
    let start: usize = if negative || (c.len() > 0 && c[0] == '+') {
        1
    } else {
        0
    };
    let ghost digits = if start == 1 {
        text@.skip(1)
    } else {
        text@
    };
    if start == c.len() {
        assert(digits.len() == 0);
        return None;
    }
    let limit: u128 = 9_223_372_036_854_775_808;
    let mut value: u128 = 0;
    let mut over: bool = false;
    assert(digits.take(0).len() == 0);
    for i in start..c.len()
        invariant
            c@ == text@,
            c@.len() == c.len(),
            limit == 9_223_372_036_854_775_808,
            start == 0 || start == 1,
            start <= c@.len(),
            negative == (text@.len() > 0 && text@[0] == '-'),
            start == (if negative || (text@.len() > 0 && text@[0] == '+') { 1int } else { 0int }),
            digits == (if start == 1 { text@.skip(1) } else { text@ }),
            forall|j: int| 0 <= j < i - start ==> is_digit(#[trigger] digits[j]),
            !over ==> value <= limit && value == digits_value(digits.take(i - start)),
            over ==> digits_value(digits.take(i - start)) > limit,
    {
        let d = c[i];
        let ghost k = i - start;
        assert(digits[k] == d);
        assert(digits.take(k + 1).drop_last() == digits.take(k));
        assert(digits.take(k + 1).last() == d);
        if !('0' <= d && d <= '9') {
            assert(!is_digit(digits[k]));
            return None;
        }
        if !over {
            let next: u128 = value * 10 + ((d as u32 - 48) as u128);
            if next > limit {
                over = true;
            } else {
                value = next;
            }
        }
    }
    proof {
        assert(digits.take(digits.len() as int) == digits);
        assert(all_digits(digits));
    }
    if over {
        None
    } else if negative {
        if value == limit {
            Some(i64::MIN)
        } else {
            Some(-(value as i64))
        }
    } else if value < limit {
        Some(value as i64)
    } else {
        None
    }
}

/// The decimal notation of a number consists of digits that write it.
pub proof fn lemma_decimal(n: nat)
    ensures
        all_digits(decimal(n)),
        digits_value(decimal(n)) == n,
    decreases n,
{
    if n < 10 {
        let s = decimal(n);
        assert(s.drop_last() == Seq::<char>::empty());
        assert(digits_value(s.drop_last()) == 0);
    } else {
        let s = decimal(n);
        lemma_decimal(n / 10);
        assert(s.drop_last() == decimal(n / 10));
        assert forall|i: int| 0 <= i < s.len() implies is_digit(#[trigger] s[i]) by {
            if i < s.len() - 1 {
                assert(s[i] == decimal(n / 10)[i]);
            }
        }
    }
}

/// A number is read back from its decimal notation.
pub proof fn law_decimal_reads_back(n: nat)
    requires
        n <= i64::MAX,
    ensures
        written_number(decimal(n)) == Some(n as int),
{
    lemma_decimal(n);
    assert(is_digit(decimal(n)[0]));
}

} // verus!
