//! What the standard library's text editing does, as far as this crate
//! relies on it.

use vstd::prelude::*;

verus! {

/// `String::push`, as its documentation has it: the character is appended
/// to the end.
pub assume_specification[ String::push ](text: &mut String, ch: char)
    ensures
        final(text)@ == old(text)@.push(ch),
;

/// `String::pop`, as its documentation has it: the last character is
/// removed and returned; an empty string stays empty and gives `None`.
pub assume_specification[ String::pop ](text: &mut String) -> (last: Option<char>)
    ensures
        old(text)@.len() == 0 ==> last is None && final(text)@ == old(text)@,
        old(text)@.len() > 0 ==> last == Some(old(text)@.last()) && final(text)@ == old(
            text,
        )@.drop_last(),
;

/// The decimal digit for `d`.
pub open spec fn digit_char(d: int) -> char {
    if d == 0 {
        '0'
    } else if d == 1 {
        '1'
    } else if d == 2 {
        '2'
    } else if d == 3 {
        '3'
    } else if d == 4 {
        '4'
    } else if d == 5 {
        '5'
    } else if d == 6 {
        '6'
    } else if d == 7 {
        '7'
    } else if d == 8 {
        '8'
    } else {
        '9'
    }
}

/// The decimal digits of `n`, without leading zeros.
pub open spec fn digits_of(n: nat) -> Seq<char>
    decreases n,
{
    if n < 10 {
        seq![digit_char(n as int)]
    } else {
        digits_of(n / 10).push(digit_char((n % 10) as int))
    }
}

/// `n` in decimal, a negative number with a minus sign before it.
pub open spec fn decimal_of(n: int) -> Seq<char> {
    if n < 0 {
        seq!['-'] + digits_of((-n) as nat)
    } else {
        digits_of(n as nat)
    }
}

/// The decimal digit for `d`.
fn digit(d: u64) -> (c: char)
    requires
        d < 10,
    ensures
        c == digit_char(d as int),
{
    if d == 0 {
        '0'
    } else if d == 1 {
        '1'
    } else if d == 2 {
        '2'
    } else if d == 3 {
        '3'
    } else if d == 4 {
        '4'
    } else if d == 5 {
        '5'
    } else if d == 6 {
        '6'
    } else if d == 7 {
        '7'
    } else if d == 8 {
        '8'
    } else {
        '9'
    }
}

/// Appends the decimal digits of `n` to `text`.
fn push_digits(text: &mut String, n: u64)
    ensures
        final(text)@ == old(text)@ + digits_of(n as nat),
    decreases n,
{
    if n >= 10 {
        push_digits(text, n / 10);
    }
    text.push(digit(n % 10));
    assert(text@ =~= old(text)@ + digits_of(n as nat));
}

/// `n` in decimal.
pub fn decimal(n: i32) -> (text: String)
    ensures
        text@ == decimal_of(n as int),
{
    let mut text = String::new();
    if n < 0 {
        text.push('-');
        let magnitude: u64 = (-(n as i64)) as u64;
        push_digits(&mut text, magnitude);
        assert(text@ =~= decimal_of(n as int));
    } else {
        push_digits(&mut text, n as u64);
        assert(text@ =~= decimal_of(n as int));
    }
    text
}

/// The views of a list of texts, in order.
pub open spec fn line_views(lines: Seq<String>) -> Seq<Seq<char>> {
    lines.map_values(|line: String| line@)
}

/// The view of a text that may be there.
pub open spec fn optional_text(text: Option<String>) -> Option<Seq<char>> {
    match text {
        Some(text) => Some(text@),
        None => None,
    }
}

/// `text` without its last character; an empty text as it is.
pub open spec fn without_last(text: Seq<char>) -> Seq<char> {
    if text.len() == 0 {
        text
    } else {
        text.drop_last()
    }
}

} // verus!
