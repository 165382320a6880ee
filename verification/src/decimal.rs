//! Numbers written in decimal digits.

use vstd::prelude::*;

verus! {

/// The digit that stands for `d`, for `d` below ten.
pub open spec fn digit_char(d: int) -> char {
    if d == 0 {
        '0'
    } else if d == 1 {
        '1'
    } else if d == 2 {
        '2'
    } else if d == 3 {
        '3'
    } else if d == 4 {
        '4'
    } else if d == 5 {
        '5'
    } else if d == 6 {
        '6'
    } else if d == 7 {
        '7'
    } else if d == 8 {
        '8'
    } else {
        '9'
    }
}

/// The number that a digit stands for; nothing for another character.
pub open spec fn digit_value(c: char) -> Option<int> {
    if c == '0' {
        Some(0)
    } else if c == '1' {
        Some(1)
    } else if c == '2' {
        Some(2)
    } else if c == '3' {
        Some(3)
    } else if c == '4' {
        Some(4)
    } else if c == '5' {
        Some(5)
    } else if c == '6' {
        Some(6)
    } else if c == '7' {
        Some(7)
    } else if c == '8' {
        Some(8)
    } else if c == '9' {
        Some(9)
    } else {
        None
    }
}

/// A number in decimal digits, without leading zeros.
pub open spec fn decimal(n: nat) -> Seq<char>
    decreases n,
{
    if n < 10 {
        seq![digit_char(n as int)]
    } else {
        decimal(n / 10).push(digit_char((n % 10) as int))
    }
}

/// The number that a text of decimal digits stands for; nothing for an
/// empty text or one that holds another character.
pub open spec fn number_of(text: Seq<char>) -> Option<nat>
    decreases text.len(),
{
    if text.len() == 0 {
        None
    } else {
        match digit_value(text.last()) {
            None => None,
            Some(d) => if text.len() == 1 {
                Some(d as nat)
            } else {
                match number_of(text.drop_last()) {
                    Some(n) => Some(n * 10 + d as nat),
                    None => None,
                }
            },
        }
    }
}

/// Reading back what was written gives the number.
pub proof fn law_decimal_reads_back(n: nat)
    ensures
        number_of(decimal(n)) == Some(n),
    decreases n,
{
    if n < 10 {
        assert(decimal(n).last() == digit_char(n as int));
    } else {
        law_decimal_reads_back(n / 10);
        let text = decimal(n);
        assert(text.drop_last() =~= decimal(n / 10));
        assert(text.last() == digit_char((n % 10) as int));
        assert(decimal(n / 10).len() >= 1) by {
            lemma_decimal_not_empty(n / 10);
        }
    }
}

/// No number is written as the empty text.
pub proof fn lemma_decimal_not_empty(n: nat)
    ensures
        decimal(n).len() >= 1,
    decreases n,
{
    if n >= 10 {
        lemma_decimal_not_empty(n / 10);
    }
}

/// The digit for a number below ten.
fn digit(d: u64) -> (c: char)
    requires
        d < 10,
    ensures
        c == digit_char(d as int),
{
    if d == 0 {
        '0'
    } else if d == 1 {
        '1'
    } else if d == 2 {
        '2'
    } else if d == 3 {
        '3'
    } else if d == 4 {
        '4'
    } else if d == 5 {
        '5'
    } else if d == 6 {
        '6'
    } else if d == 7 {
        '7'
    } else if d == 8 {
        '8'
    } else {
        '9'
    }
}

/// The number that a digit stands for.
fn value_of(c: char) -> (d: Option<u64>)
    ensures
        match d {
            Some(v) => digit_value(c) == Some(v as int) && v < 10,
            None => digit_value(c) is None,
        },
{
    if c == '0' {
        Some(0)
    } else if c == '1' {
        Some(1)
    } else if c == '2' {
        Some(2)
    } else if c == '3' {
        Some(3)
    } else if c == '4' {
        Some(4)
    } else if c == '5' {
        Some(5)
    } else if c == '6' {
        Some(6)
    } else if c == '7' {
        Some(7)
    } else if c == '8' {
        Some(8)
    } else if c == '9' {
        Some(9)
    } else {
        None
    }
}

/// Appends a number in decimal digits to a text.
pub fn push_decimal(text: &mut String, n: u64)
    ensures
        final(text)@ == old(text)@ + decimal(n as nat),
    decreases n,
{
    if n >= 10 {
        push_decimal(text, n / 10);
    }
    text.push(digit(n % 10));
    proof {
        if n >= 10 {
            assert(text@ =~= old(text)@ + decimal(n as nat));
        } else {
            assert(text@ =~= old(text)@ + decimal(n as nat));
        }
    }
}

/// Reads a number written in decimal digits, if it fits.
pub fn parse_u32(text: &str) -> (number: Option<u32>)
    ensures
        match number {
            Some(n) => number_of(text@) == Some(n as nat),
            None => (number_of(text@) matches Some(n) ==> n > u32::MAX),
        },
{
    let mut value: u64 = 0;
    let mut any = false;
    let mut too_large = false;
    assert(text@.subrange(0, 0).len() == 0);
    for c in it: text.chars()
        invariant
            it.seq() == text@,
            any == (it.index() > 0),
            !any ==> value == 0 && !too_large,
            !too_large ==> value <= u32::MAX,
            any && !too_large ==> number_of(text@.subrange(0, it.index())) == Some(value as nat),
            too_large ==> (number_of(text@.subrange(0, it.index())) matches Some(n) && n
                > u32::MAX),
    {
        let ghost seen = text@.subrange(0, it.index());
        let ghost next = text@.subrange(0, it.index() + 1);
        proof {
            assert(next.drop_last() =~= seen);
            assert(next.last() == c);
        }
        match value_of(c) {
            None => {
                proof {
                    lemma_rest_is_no_number(text@, it.index() + 1);
                }
                return None;
            },
            Some(d) => {
                proof {
                    assert(next.len() == seen.len() + 1);
                    if any {
                        assert(number_of(seen) is Some);
                        assert(number_of(next) == Some(number_of(seen)->Some_0 * 10 + d as nat));
                    } else {
                        assert(next.len() == 1);
                        assert(number_of(next) == Some(d as nat));
                    }
                }
                if !too_large {
                    value = value * 10 + d;
                    if value > 0xffff_ffff {
                        too_large = true;
                    }
                }
                any = true;
            },
        }
    }
    assert(text@.subrange(0, text@.len() as int) =~= text@);
    if any && !too_large {
        Some(value as u32)
    } else {
        None
    }
}

/// A text with a beginning that is no number is no number.
proof fn lemma_rest_is_no_number(text: Seq<char>, upto: int)
    requires
        0 < upto <= text.len(),
        number_of(text.subrange(0, upto)) is None,
    ensures
        number_of(text) is None,
    decreases text.len() - upto,
{
    if upto < text.len() {
        let longer = text.subrange(0, upto + 1);
        assert(longer.drop_last() =~= text.subrange(0, upto));
        lemma_rest_is_no_number(text, upto + 1);
    } else {
        assert(text.subrange(0, upto) =~= text);
    }
}

} // verus!
