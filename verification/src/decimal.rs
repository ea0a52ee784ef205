//! Numbers written out in decimal.

use vstd::prelude::*;
use crate::text::{chars_of, string_of};

verus! {

/// The character of one decimal digit.
pub open spec fn digit(d: nat) -> char
    recommends
        d < 10,
{
    (48 + d) as u8 as char
}

/// The decimal digits of `n`, the most significant first, without leading
/// zeros.
pub open spec fn digits(n: nat) -> Seq<char>
    decreases n,
{
    if n < 10 {
        seq![digit(n)]
    } else {
        digits(n / 10).push(digit(n % 10))
    }
}

/// `n` in decimal, with a minus sign before a negative number.
pub open spec fn decimal(n: int) -> Seq<char> {
    if n < 0 {
        seq!['-'] + digits((-n) as nat)
    } else {
        digits(n as nat)
    }
}

fn push_digits(out: &mut Vec<char>, n: u64)
    ensures
        final(out)@ == old(out)@ + digits(n as nat),
    decreases n,
{
    if n >= 10 {
        push_digits(out, n / 10);
    }
    let d: u8 = (n % 10) as u8;
    out.push((48 + d) as char);
    assert(out@ =~= old(out)@ + digits(n as nat));
}

/// An unsigned number in decimal.
pub fn unsigned_text(n: u64) -> (out: String)
    ensures
        out@ == decimal(n as int),
{
    let mut chars: Vec<char> = Vec::new();
    push_digits(&mut chars, n);
    assert(chars@ =~= digits(n as nat));
    string_of(&chars)
}

/// A signed number in decimal.
pub fn signed_text(n: i64) -> (out: String)
    ensures
        out@ == decimal(n as int),
{
    let mut chars: Vec<char> = Vec::new();
    if n < 0 {
        chars.push('-');
        let magnitude: u64 = (-(n + 1)) as u64 + 1;
        push_digits(&mut chars, magnitude);
        assert(chars@ =~= seq!['-'] + digits((-n) as nat));
    } else {
        push_digits(&mut chars, n as u64);
        assert(chars@ =~= digits(n as nat));
    }
    string_of(&chars)
}

/// The value of a decimal digit, and `None` for any other character.
pub open spec fn digit_value(c: char) -> Option<nat> {
    if '0' <= c <= '9' {
        Some((c as u8 - 48) as nat)
    } else {
        None
    }
}

/// The number that a run of decimal digits writes, and `None` for a text
/// that is empty or holds anything else. Leading zeros are read over.
pub open spec fn natural(text: Seq<char>) -> Option<nat>
    decreases text.len(),
{
    if text.len() == 0 {
        None
    } else {
        match digit_value(text.last()) {
            None => None,
            Some(d) => if text.len() == 1 {
                Some(d)
            } else {
                match natural(text.drop_last()) {
                    Some(n) => Some(10 * n + d),
                    None => None,
                }
            },
        }
    }
}

/// The number that a text writes in decimal, with a minus sign before a
/// negative one, and `None` for any other text.
pub open spec fn integer(text: Seq<char>) -> Option<int> {
    if text.len() > 0 && text[0] == '-' {
        match natural(text.drop_first()) {
            Some(n) => Some(-(n as int)),
            None => None,
        }
    } else {
        match natural(text) {
            Some(n) => Some(n as int),
            None => None,
        }
    }
}

/// The digits of a number are digits, and they write that number.
pub proof fn lemma_digits_read_back(n: nat)
    ensures
        digits(n).len() >= 1,
        n >= 10 ==> digits(n).len() >= 2,
        forall|i: int| 0 <= i < digits(n).len() ==> digit_value(#[trigger] digits(n)[i]) is Some,
        natural(digits(n)) == Some(n),
    decreases n,
{
    if n >= 10 {
        lemma_digits_read_back(n / 10);
        let init = digits(n / 10);
        assert(digits(n).drop_last() =~= init);
        assert(digits(n).last() == digit(n % 10));
        assert forall|i: int| 0 <= i < digits(n).len() implies digit_value(
            #[trigger] digits(n)[i],
        ) is Some by {
            if i < init.len() {
                assert(digits(n)[i] == init[i]);
            }
        }
    }
}

/// A number written in decimal is read back as itself.
pub proof fn lemma_decimal_reads_back(n: int)
    ensures
        integer(decimal(n)) == Some(n),
{
    if n < 0 {
        lemma_digits_read_back((-n) as nat);
        assert(decimal(n).drop_first() =~= digits((-n) as nat));
    } else {
        lemma_digits_read_back(n as nat);
        assert(digit_value(digits(n as nat)[0]) is Some);
    }
}

/// The digits before a given place write a number no larger than the whole.
pub proof fn lemma_shorter_is_smaller(text: Seq<char>, upto: int)
    requires
        1 <= upto <= text.len(),
        natural(text) is Some,
    ensures
        natural(text.take(upto)) is Some,
        natural(text.take(upto))->0 <= natural(text)->0,
    decreases text.len(),
{
    if upto == text.len() {
        assert(text.take(upto) =~= text);
    } else {
        assert(text.drop_last().take(upto) =~= text.take(upto));
        lemma_shorter_is_smaller(text.drop_last(), upto);
    }
}

/// Reads a run of decimal digits. `None` where the text is not one, or
/// where the number does not fit.
pub fn parse_natural(text: &Vec<char>, from: usize) -> (r: Option<u64>)
    requires
        from <= text.len(),
    ensures
        r == (match natural(text@.subrange(from as int, text@.len() as int)) {
            Some(n) => if n <= u64::MAX {
                Some(n as u64)
            } else {
                None
            },
            None => None,
        }),
{
    let ghost all = text@.subrange(from as int, text@.len() as int);
    if from == text.len() {
        return None;
    }
    let mut value: u64 = 0;
    let mut i: usize = from;
    while i < text.len()
        invariant
            from <= i <= text.len(),
            from < text.len(),
            all == text@.subrange(from as int, text@.len() as int),
            i > from ==> natural(all.take(i - from)) == Some(value as nat),
            i == from ==> value == 0,
        decreases text.len() - i,
    {
        let c = text[i];
        let ghost upto = i - from + 1;
        proof {
            assert(all.take(upto).last() == c);
            assert(all.take(upto).drop_last() =~= all.take(upto - 1));
            if natural(all) is Some {
                lemma_shorter_is_smaller(all, upto);
            }
        }
        if c < '0' || c > '9' {
            assert(natural(all.take(upto)) is None);
            return None;
        }
        let d: u64 = (c as u8 - 48) as u64;
        if value > (u64::MAX - d) / 10 {
            assert(10 * value + d > u64::MAX);
            return None;
        }
        value = 10 * value + d;
        i += 1;
    }
    assert(all.take(all.len() as int) =~= all);
    Some(value)
}

/// Reads a number written in decimal. `None` where the text is not one, or
/// where the number does not fit.
pub fn parse_integer(text: &str) -> (r: Option<i64>)
    ensures
        r == (match integer(text@) {
            Some(n) => if i64::MIN <= n <= i64::MAX {
                Some(n as i64)
            } else {
                None
            },
            None => None,
        }),
{
    let chars = chars_of(text);
    if chars.len() > 0 && chars[0] == '-' {
        assert(chars@.drop_first() =~= chars@.subrange(1, chars@.len() as int));
        match parse_natural(&chars, 1) {
            Some(n) => if n <= 9223372036854775807u64 {
                Some(-(n as i64))
            } else if n == 9223372036854775808u64 {
                Some(i64::MIN)
            } else {
                None
            },
            None => None,
        }
    } else {
        assert(chars@ =~= chars@.subrange(0, chars@.len() as int));
        match parse_natural(&chars, 0) {
            Some(n) => if n <= 9223372036854775807u64 {
                Some(n as i64)
            } else {
                None
            },
            None => None,
        }
    }
}

} // verus!
