//! Decimal numbers in the notation of stats and obstacles.
//!
//! A quantity is written as an unsigned decimal number: one or more of the
//! digits `0` to `9`, with leading zeros allowed and an optional `+` in
//! front. It is read into a `usize`; a number too large for one is as
//! malformed as one with a letter in it.

use vstd::prelude::*;
use vstd::std_specs::iter::IteratorSpec;

verus! {

/// Why a piece of notation could not be read.
#[derive(Clone, Copy, Debug, PartialEq, Eq, Structural)]
pub enum ParseError {
    /// The quantity is empty, not a decimal number, or too large.
    MalformedQuantity,
    /// The text is too short to hold the tag that opens the notation.
    InvalidFormat,
}

/// The value of a decimal digit, `None` for any other character.
pub open spec fn digit_of(c: char) -> Option<nat> {
    match c {
        '0' => Some(0nat),
        '1' => Some(1nat),
        '2' => Some(2nat),
        '3' => Some(3nat),
        '4' => Some(4nat),
        '5' => Some(5nat),
        '6' => Some(6nat),
        '7' => Some(7nat),
        '8' => Some(8nat),
        '9' => Some(9nat),
        _ => None,
    }
}

/// The digit that writes `d`, for `d` below ten.
pub open spec fn digit_char(d: nat) -> char {
    if d == 0 {
        '0'
    } else if d == 1 {
        '1'
    } else if d == 2 {
        '2'
    } else if d == 3 {
        '3'
    } else if d == 4 {
        '4'
    } else if d == 5 {
        '5'
    } else if d == 6 {
        '6'
    } else if d == 7 {
        '7'
    } else if d == 8 {
        '8'
    } else {
        '9'
    }
}

/// Whether `text` consists of decimal digits only.
pub open spec fn all_digits(text: Seq<char>) -> bool {
    forall|i: int| 0 <= i < text.len() ==> digit_of(#[trigger] text[i]) is Some
}

/// The number that a run of digits writes in base ten.
pub open spec fn digits_value(digits: Seq<char>) -> nat
    decreases digits.len(),
{
    if digits.len() == 0 {
        0
    } else {
        10 * digits_value(digits.drop_last()) + match digit_of(digits.last()) {
            Some(d) => d,
            None => 0,
        }
    }
}

/// `text` without the `+` that may stand in front of a number.
pub open spec fn unsigned_part(text: Seq<char>) -> Seq<char> {
    if text.len() > 0 && text[0] == '+' {
        text.drop_first()
    } else {
        text
    }
}

/// The quantity that `text` writes, if it writes one: an optional `+`, then
/// at least one digit and nothing but digits, naming a number that fits a
/// `usize`.
pub open spec fn parsed_number(text: Seq<char>) -> Option<usize> {
    let digits = unsigned_part(text);
    if digits.len() > 0 && all_digits(digits) && digits_value(digits) <= usize::MAX {
        Some(digits_value(digits) as usize)
    } else {
        None
    }
}

/// The quantity that `text` writes, and `1` where it writes none.
pub open spec fn quantity_or_one(text: Seq<char>) -> usize {
    match parsed_number(text) {
        Some(n) => n,
        None => 1,
    }
}

/// The decimal digits of `n`, most significant first, without leading
/// zeros.
pub open spec fn number_text(n: nat) -> Seq<char>
    decreases n,
{
    if n < 10 {
        seq![digit_char(n)]
    } else {
        number_text(n / 10).push(digit_char(n % 10))
    }
}

/// The value of a decimal digit, `None` for any other character.
pub fn digit_value(c: char) -> (d: Option<u8>)
    ensures
        d matches Some(v) ==> digit_of(c) == Some(v as nat),
        d is None ==> digit_of(c) is None,
{
    match c {
        '0' => Some(0),
        '1' => Some(1),
        '2' => Some(2),
        '3' => Some(3),
        '4' => Some(4),
        '5' => Some(5),
        '6' => Some(6),
        '7' => Some(7),
        '8' => Some(8),
        '9' => Some(9),
        _ => None,
    }
}

/// The characters of `text`, in order.
pub fn chars_of(text: &str) -> (chars: Vec<char>)
    ensures
        chars@ == text@,
{
    let mut chars: Vec<char> = Vec::new();
    let mut rest = text.chars();
    loop
        invariant
            chars@ + rest.remaining() == text@,
            rest.decrease() is Some,
        decreases rest.decrease()->0,
    {
        match rest.next() {
            Some(c) => {
                chars.push(c);
            },
            None => {
                return chars;
            },
        }
    }
}

/// Reads the quantity that `text` writes.
pub fn parse_number(text: &[char]) -> (number: Result<usize, ParseError>)
    ensures
        number matches Ok(n) ==> parsed_number(text@) == Some(n),
        number matches Err(e) ==> e == ParseError::MalformedQuantity && parsed_number(text@)
            is None,
{
    let start: usize = if text.len() > 0 && text[0] == '+' {
        1
    } else {
        0
    };
    let ghost digits = unsigned_part(text@);
    assert(digits =~= text@.skip(start as int));
    let mut value: usize = 0;
    let mut next: usize = start;
    while next < text.len()
        invariant
            start <= next <= text@.len(),
            digits == text@.skip(start as int),
            digits == unsigned_part(text@),
            all_digits(digits.take(next - start)),
            value == digits_value(digits.take(next - start)),
        decreases text@.len() - next,
    {
        let ghost seen = digits.take(next - start);
        let ghost more = digits.take(next + 1 - start);
        proof {
            assert(more.drop_last() =~= seen);
            assert(more.last() == text@[next as int]);
            lemma_prefix_value(digits, next + 1 - start);
        }
        match digit_value(text[next]) {
            None => {
                assert(digit_of(digits[next - start]) is None);
                return Err(ParseError::MalformedQuantity);
            },
            Some(d) => {
                if value > usize::MAX / 10 || d as usize > usize::MAX - value * 10 {
                    return Err(ParseError::MalformedQuantity);
                }
                value = value * 10 + d as usize;
                assert forall|i: int| 0 <= i < more.len() implies digit_of(
                    #[trigger] more[i],
                ) is Some by {
                    if i < seen.len() {
                        assert(more[i] == seen[i]);
                    }
                }
            },
        }
        next += 1;
    }
    assert(digits.take(next - start) =~= digits);
    if next == start {
        Err(ParseError::MalformedQuantity)
    } else {
        Ok(value)
    }
}

/// The digit that writes `d`, as a string of its own.
fn digit_text(d: u8) -> (text: &'static str)
    requires
        d < 10,
    ensures
        text@ == seq![digit_char(d as nat)],
{
    proof {
        reveal_strlit("0");
        reveal_strlit("1");
        reveal_strlit("2");
        reveal_strlit("3");
        reveal_strlit("4");
        reveal_strlit("5");
        reveal_strlit("6");
        reveal_strlit("7");
        reveal_strlit("8");
        reveal_strlit("9");
    }
    let text = match d {
        0 => "0",
        1 => "1",
        2 => "2",
        3 => "3",
        4 => "4",
        5 => "5",
        6 => "6",
        7 => "7",
        8 => "8",
        _ => "9",
    };
    assert(text@ =~= seq![digit_char(d as nat)]);
    text
}

/// Writes `n` in decimal at the end of `text`.
pub fn push_number(text: &mut String, n: usize)
    ensures
        final(text)@ == old(text)@ + number_text(n as nat),
    decreases n,
{
    if n >= 10 {
        push_number(text, n / 10);
    }
    text.append(digit_text((n % 10) as u8));
    assert(text@ =~= old(text)@ + number_text(n as nat));
}

/// The number that the first digits of a run write is no larger than the
/// number that the whole run writes.
pub proof fn lemma_prefix_value(digits: Seq<char>, k: int)
    requires
        0 <= k <= digits.len(),
    ensures
        digits_value(digits.take(k)) <= digits_value(digits),
    decreases digits.len(),
{
    if k < digits.len() {
        lemma_prefix_value(digits.drop_last(), k);
        assert(digits.drop_last().take(k) =~= digits.take(k));
    } else {
        assert(digits.take(k) =~= digits);
    }
}

/// The decimal digits of a number are digits, at least one of them, and
/// write that number.
pub proof fn lemma_number_text(n: nat)
    ensures
        number_text(n).len() > 0,
        all_digits(number_text(n)),
        digits_value(number_text(n)) == n,
        unsigned_part(number_text(n)) == number_text(n),
    decreases n,
{
    let text = number_text(n);
    if n < 10 {
        assert(text.drop_last() =~= Seq::<char>::empty());
        assert(digits_value(text.drop_last()) == 0);
    } else {
        let front = number_text(n / 10);
        lemma_number_text(n / 10);
        assert(text.drop_last() =~= front);
        assert(text[0] == front[0]);
        assert forall|i: int| 0 <= i < text.len() implies digit_of(#[trigger] text[i]) is Some by {
            if i < front.len() {
                assert(text[i] == front[i]);
            }
        }
    }
}

/// Reading what was written gives the number back: the decimal digits of a
/// number that fits a `usize` parse to that number.
pub proof fn lemma_number_round_trip(n: usize)
    ensures
        parsed_number(number_text(n as nat)) == Some(n),
{
    lemma_number_text(n as nat);
}

} // verus!
