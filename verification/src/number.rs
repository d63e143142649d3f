use vstd::prelude::*;
use crate::text::{chars_of, decimal, digit_char, is_digit, two_decimals};

verus! {

/// The number that a decimal digit writes.
pub open spec fn digit_value(c: char) -> nat
    recommends
        is_digit(c),
{
    if c == '0' {
        0
    } else if c == '1' {
        1
    } else if c == '2' {
        2
    } else if c == '3' {
        3
    } else if c == '4' {
        4
    } else if c == '5' {
        5
    } else if c == '6' {
        6
    } else if c == '7' {
        7
    } else if c == '8' {
        8
    } else {
        9
    }
}

/// The number that a sequence of decimal digits writes.
pub open spec fn digits_value(s: Seq<char>) -> nat
    decreases s.len(),
{
    if s.len() == 0 {
        0
    } else {
        10 * digits_value(s.drop_last()) + digit_value(s.last())
    }
}

/// True when every character of `s` is a decimal digit.
pub open spec fn all_digits(s: Seq<char>) -> bool {
    forall|i: int| 0 <= i < s.len() ==> is_digit(#[trigger] s[i])
}

/// A numeral without the plus sign that may stand before it.
pub open spec fn unsigned_body(s: Seq<char>) -> Seq<char> {
    if s.len() > 0 && s.first() == '+' {
        s.drop_first()
    } else {
        s
    }
}

/// The number that `s` writes, if it writes one that is at most `max`: an
/// optional plus sign, then one or more decimal digits and nothing else.
pub open spec fn parsed_number(s: Seq<char>, max: nat) -> Option<nat> {
    let body = unsigned_body(s);
    if body.len() > 0 && all_digits(body) && digits_value(body) <= max {
        Some(digits_value(body))
    } else {
        None
    }
}

/// The digits read so far never write more than all the digits do.
pub proof fn lemma_digits_value_grows(s: Seq<char>, k: int)
    requires
        0 <= k <= s.len(),
    ensures
        digits_value(s.take(k)) <= digits_value(s),
    decreases s.len() - k,
{
    if k < s.len() {
        lemma_digits_value_grows(s, k + 1);
        assert(s.take(k + 1).drop_last() == s.take(k));
    } else {
        assert(s.take(k) == s);
    }
}

/// A numeral writes the number it was made from.
pub proof fn lemma_digits_value_decimal(n: nat)
    ensures
        digits_value(decimal(n)) == n,
    decreases n,
{
    if n < 10 {
        assert(decimal(n).drop_last() =~= Seq::<char>::empty());
        assert(decimal(n).last() == digit_char(n));
        assert(digits_value(decimal(n)) == 10 * digits_value(Seq::<char>::empty())
            + digit_value(digit_char(n)));
    } else {
        lemma_digits_value_decimal(n / 10);
        assert(decimal(n).drop_last() =~= decimal(n / 10));
        assert(decimal(n).last() == digit_char(n % 10));
    }
}

/// The number of hundredths that a text with two decimals writes: its digits
/// before the point count a hundred each, the two after it ten and one.
pub open spec fn hundredths_written(text: Seq<char>) -> nat
    recommends
        text.len() >= 4,
{
    let n = text.len() as int;
    digits_value(text.take(n - 3)) * 100 + digit_value(text[n - 2]) * 10 + digit_value(
        text[n - 1],
    )
}

/// A number written with two decimals reads as that number.
pub proof fn lemma_two_decimals_written(hundredths: nat)
    ensures
        hundredths_written(two_decimals(hundredths)) == hundredths,
{
    let whole = decimal(hundredths / 100);
    let text = two_decimals(hundredths);
    lemma_digits_value_decimal(hundredths / 100);
    assert(text.take(text.len() - 3) =~= whole);
    assert(text[text.len() - 2] == digit_char((hundredths / 10) % 10));
    assert(text[text.len() - 1] == digit_char(hundredths % 10));
    assert(digit_value(digit_char((hundredths / 10) % 10)) == (hundredths / 10) % 10);
    assert(digit_value(digit_char(hundredths % 10)) == hundredths % 10);
}

fn digit_of(c: char) -> (d: Option<u64>)
    ensures
        d is Some == is_digit(c),
        d is Some ==> d->0 == digit_value(c) && d->0 < 10,
{
    match c {
        '0' => Some(0),
        '1' => Some(1),
        '2' => Some(2),
        '3' => Some(3),
        '4' => Some(4),
        '5' => Some(5),
        '6' => Some(6),
        '7' => Some(7),
        '8' => Some(8),
        '9' => Some(9),
        _ => None,
    }
}

/// Reads a number of at most `max` from its decimal numeral.
pub fn parse_number(s: &str, max: u64) -> (n: Option<u64>)
    ensures
        n is Some == parsed_number(s@, max as nat) is Some,
        n is Some ==> n->0 == parsed_number(s@, max as nat)->0,
{
    let chars = chars_of(s);
    let start: usize = if chars.len() > 0 && chars[0] == '+' {
        1
    } else {
        0
    };
    let ghost body = unsigned_body(s@);
    assert(body == chars@.subrange(start as int, chars.len() as int));
    if start == chars.len() {
        return None;
    }
    let mut value: u64 = 0;
    let mut i: usize = start;
    assert(body.take(0) =~= Seq::<char>::empty());
    while i < chars.len()
        invariant
            start <= i <= chars.len(),
            body == unsigned_body(s@),
            body == chars@.subrange(start as int, chars.len() as int),
            all_digits(body.take(i - start)),
            value == digits_value(body.take(i - start)),
            value <= max,
        decreases chars.len() - i,
    {
        let ghost read = body.take(i - start);
        let ghost next = body.take(i - start + 1);
        proof {
            assert(next.drop_last() == read);
            assert(next.last() == chars[i as int]);
            assert(body[i - start] == chars[i as int]);
        }
        match digit_of(chars[i]) {
            None => {
                assert(!is_digit(body[i - start]));
                return None;
            },
            Some(d) => {
                if max < d || value > (max - d) / 10 {
                    proof {
                        assert(digits_value(next) > max);
                        lemma_digits_value_grows(body, i - start + 1);
                    }
                    return None;
                }
                value = value * 10 + d;
                assert forall|k: int| 0 <= k < next.len() implies is_digit(#[trigger] next[k]) by {
                    if k < read.len() {
                        assert(read[k] == next[k]);
                    }
                }
            },
        }
        i += 1;
    }
    assert(body.take(body.len() as int) == body);
    Some(value)
}

} // verus!
