//! The menus of the administration console: which choice a typed number
//! stands for.

use crate::models::User;
use crate::text::{decimal, decimal_of, without_last};
use vstd::prelude::*;
use vstd::string::{StrSliceExecFns, StringExecFns};

verus! {

/// What the main menu offers.
#[derive(Debug, Clone, Copy, PartialEq, Eq, Structural)]
pub enum MenuOption {
    Create,
    Read,
    Update,
    Delete,
    SetPassword,
    CheckPassword,
    Exit,
}

/// What the menu for reading offers.
#[derive(Debug, Clone, Copy, PartialEq, Eq, Structural)]
pub enum ReadOption {
    Single,
    All,
}

/// Why a line that was typed at a menu is no choice.
#[derive(Debug, Clone, Copy, PartialEq, Eq, Structural)]
pub enum CrudError {
    /// The line is not a number.
    InvalidNumber,
    /// The number is not on the menu.
    InvalidMenuOption,
}

/// The value of the decimal digit `c`; `None` where `c` is no digit.
pub open spec fn digit_of(c: char) -> Option<int> {
    if c == '0' {
        Some(0)
    } else if c == '1' {
        Some(1)
    } else if c == '2' {
        Some(2)
    } else if c == '3' {
        Some(3)
    } else if c == '4' {
        Some(4)
    } else if c == '5' {
        Some(5)
    } else if c == '6' {
        Some(6)
    } else if c == '7' {
        Some(7)
    } else if c == '8' {
        Some(8)
    } else if c == '9' {
        Some(9)
    } else {
        None
    }
}

/// Whether `text` is one decimal digit or more, and nothing else.
pub open spec fn is_digits(text: Seq<char>) -> bool {
    text.len() > 0 && forall|i: int| 0 <= i < text.len() ==> digit_of(#[trigger] text[i]) is Some
}

/// The number that the decimal digits `text` write.
pub open spec fn digits_value(text: Seq<char>) -> int
    decreases text.len(),
{
    if text.len() == 0 {
        0
    } else {
        digits_value(text.drop_last()) * 10 + digit_of(text.last()).unwrap_or(0)
    }
}

/// The number that `text` is a decimal notation of, where it is one and the
/// number fits: digits, with or without zeros in front, after a plus sign, a
/// minus sign or no sign.
pub open spec fn parsed_i32(text: Seq<char>) -> Option<i32> {
    let negative = text.len() > 0 && text[0] == '-';
    let signed = text.len() > 0 && (text[0] == '-' || text[0] == '+');
    let digits = if signed {
        text.skip(1)
    } else {
        text
    };
    let value = if negative {
        -digits_value(digits)
    } else {
        digits_value(digits)
    };
    if is_digits(digits) && i32::MIN <= value <= i32::MAX {
        Some(value as i32)
    } else {
        None
    }
}

/// The value of the decimal digit `c`.
fn digit_value(c: char) -> (value: Option<i64>)
    ensures
        match value {
            Some(d) => digit_of(c) == Some(d as int) && 0 <= d <= 9,
            None => digit_of(c) is None,
        },
{
    if c == '0' {
        Some(0)
    } else if c == '1' {
        Some(1)
    } else if c == '2' {
        Some(2)
    } else if c == '3' {
        Some(3)
    } else if c == '4' {
        Some(4)
    } else if c == '5' {
        Some(5)
    } else if c == '6' {
        Some(6)
    } else if c == '7' {
        Some(7)
    } else if c == '8' {
        Some(8)
    } else if c == '9' {
        Some(9)
    } else {
        None
    }
}

/// The number that `text` is a decimal notation of.
pub fn parse_i32(text: &str) -> (number: Option<i32>)
    ensures
        number == parsed_i32(text@),
{
    let len = text.unicode_len();
    if len == 0 {
        return None;
    }
    let first = text.get_char(0);
    let negative = first == '-';
    let start: usize = if first == '-' || first == '+' {
        1
    } else {
        0
    };
    if start == len {
        return None;
    }
    let ghost digits = text@.skip(start as int);
    let limit: i64 = 2147483648;
    let mut value: i64 = 0;
    let mut too_large = false;
    let mut i: usize = start;
    proof {
        assert(digits.subrange(0, 0) =~= Seq::<char>::empty());
        assert(text@.skip(0) =~= text@);
        assert(first == text@[0]);
    }
    while i < len
        invariant
            start <= i <= len,
            len == text@.len(),
            digits == text@.skip(start as int),
            digits == (if text@[0] == '-' || text@[0] == '+' {
                text@.skip(1)
            } else {
                text@
            }),
            limit == 2147483648,
            forall|k: int| 0 <= k < i - start ==> digit_of(#[trigger] digits[k]) is Some,
            0 <= value <= limit,
            !too_large ==> value == digits_value(digits.subrange(0, i - start)),
            too_large ==> digits_value(digits.subrange(0, i - start)) > limit,
        decreases len - i,
    {
        let c = text.get_char(i);
        let ghost seen = digits.subrange(0, i - start);
        proof {
            let next = digits.subrange(0, i - start + 1);
            assert(next.drop_last() =~= seen);
            assert(next.last() == c);
        }
        match digit_value(c) {
            None => {
                assert(digit_of(digits[i - start]) is None);
                return None;
            },
            Some(d) => {
                if !too_large {
                    let grown = value * 10 + d;
                    if grown > limit {
                        too_large = true;
                    } else {
                        value = grown;
                    }
                }
            },
        }
        i += 1;
    }
    proof {
        assert(digits.subrange(0, len - start) =~= digits);
    }
    if too_large {
        None
    } else if negative {
        Some((-value) as i32)
    } else if value == limit {
        None
    } else {
        Some(value as i32)
    }
}

/// The choice on the main menu that `choice` stands for.
pub open spec fn main_choice(choice: i32) -> Result<MenuOption, CrudError> {
    if choice == 1 {
        Ok(MenuOption::Create)
    } else if choice == 2 {
        Ok(MenuOption::Read)
    } else if choice == 3 {
        Ok(MenuOption::Update)
    } else if choice == 4 {
        Ok(MenuOption::Delete)
    } else if choice == 5 {
        Ok(MenuOption::SetPassword)
    } else if choice == 6 {
        Ok(MenuOption::CheckPassword)
    } else if choice == 7 {
        Ok(MenuOption::Exit)
    } else {
        Err(CrudError::InvalidMenuOption)
    }
}

/// The choice on the menu for reading that `choice` stands for.
pub open spec fn read_choice(choice: i32) -> Result<ReadOption, CrudError> {
    if choice == 1 {
        Ok(ReadOption::All)
    } else if choice == 2 {
        Ok(ReadOption::Single)
    } else {
        Err(CrudError::InvalidMenuOption)
    }
}

/// The choice on the main menu that the number `choice` stands for.
pub fn menu_option(choice: i32) -> (r: Result<MenuOption, CrudError>)
    ensures
        r == main_choice(choice),
{
    match choice {
        1 => Ok(MenuOption::Create),
        2 => Ok(MenuOption::Read),
        3 => Ok(MenuOption::Update),
        4 => Ok(MenuOption::Delete),
        5 => Ok(MenuOption::SetPassword),
        6 => Ok(MenuOption::CheckPassword),
        7 => Ok(MenuOption::Exit),
        _ => Err(CrudError::InvalidMenuOption),
    }
}

/// The choice on the menu for reading that the number `choice` stands for.
pub fn read_option(choice: i32) -> (r: Result<ReadOption, CrudError>)
    ensures
        r == read_choice(choice),
{
    match choice {
        1 => Ok(ReadOption::All),
        2 => Ok(ReadOption::Single),
        _ => Err(CrudError::InvalidMenuOption),
    }
}

/// The choice on the main menu that the line `line` stands for.
pub fn try_menu_main(line: &str) -> (r: Result<MenuOption, CrudError>)
    ensures
        r == (match parsed_i32(line@) {
            Some(choice) => main_choice(choice),
            None => Err(CrudError::InvalidNumber),
        }),
{
    match parse_i32(line) {
        Some(choice) => menu_option(choice),
        None => Err(CrudError::InvalidNumber),
    }
}

/// The choice on the menu for reading that the line `line` stands for.
pub fn try_menu_read(line: &str) -> (r: Result<ReadOption, CrudError>)
    ensures
        r == (match parsed_i32(line@) {
            Some(choice) => read_choice(choice),
            None => Err(CrudError::InvalidNumber),
        }),
{
    match parse_i32(line) {
        Some(choice) => read_option(choice),
        None => Err(CrudError::InvalidNumber),
    }
}

/// A line as it was read, without the character that ends it.
pub fn read_string(buf: &str) -> (line: String)
    ensures
        line@ == without_last(buf@),
{
    let len = buf.unicode_len();
    if len == 0 {
        String::from_str(buf)
    } else {
        let line = String::from_str(buf.substring_char(0, len - 1));
        assert(line@ =~= buf@.drop_last());
        line
    }
}

/// The line that shows a user: its id, a colon and a space, and its name.
pub fn user_line(user: &User) -> (line: String)
    ensures
        line@ == decimal_of(user.id as int) + ": "@ + user.username@,
{
    decimal(user.id).concat(": ").concat(user.username.as_str())
}

impl CrudError {
    /// The text shown to a person for this error.
    pub fn message(&self) -> (text: String)
        ensures
            text@ == (match *self {
                CrudError::InvalidNumber => "could not read a number"@,
                CrudError::InvalidMenuOption => "could not obtain a valid menu option"@,
            }),
    {
        match self {
            CrudError::InvalidNumber => String::from_str("could not read a number"),
            CrudError::InvalidMenuOption => String::from_str("could not obtain a valid menu option"),
        }
    }
}

} // verus!
