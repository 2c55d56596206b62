//! Key presses as the engine sees them.

use vstd::prelude::*;

verus! {

/// The keys that the engine tells apart.
#[derive(Debug, Clone, Copy, PartialEq, Eq, Structural)]
pub enum KeyCode {
    Char(char),
    Esc,
    Enter,
    Backspace,
    Tab,
    BackTab,
    Up,
    Down,
    Left,
    Right,
    /// Any key the engine has no use for.
    Other,
}

/// One key press: the key, and whether Control was held.
#[derive(Debug, Clone, Copy, PartialEq, Eq, Structural)]
pub struct KeyEvent {
    pub code: KeyCode,
    pub ctrl: bool,
}

impl KeyEvent {
    /// A key pressed without Control.
    pub fn plain(code: KeyCode) -> (k: Self)
        ensures
            k == (KeyEvent { code, ctrl: false }),
    {
        KeyEvent { code, ctrl: false }
    }

    /// A character typed without Control.
    pub fn typed(c: char) -> (k: Self)
        ensures
            k == (KeyEvent { code: KeyCode::Char(c), ctrl: false }),
    {
        KeyEvent { code: KeyCode::Char(c), ctrl: false }
    }

    /// A character typed with Control held.
    pub fn with_ctrl(c: char) -> (k: Self)
        ensures
            k == (KeyEvent { code: KeyCode::Char(c), ctrl: true }),
    {
        KeyEvent { code: KeyCode::Char(c), ctrl: true }
    }
}

/// The value of a decimal digit, if the character is one.
pub open spec fn digit_of(c: char) -> Option<usize> {
    if c == '0' {
        Some(0usize)
    } else if c == '1' {
        Some(1usize)
    } else if c == '2' {
        Some(2usize)
    } else if c == '3' {
        Some(3usize)
    } else if c == '4' {
        Some(4usize)
    } else if c == '5' {
        Some(5usize)
    } else if c == '6' {
        Some(6usize)
    } else if c == '7' {
        Some(7usize)
    } else if c == '8' {
        Some(8usize)
    } else if c == '9' {
        Some(9usize)
    } else {
        None
    }
}

/// The value of a decimal digit.
pub fn digit_value(c: char) -> (d: Option<usize>)
    ensures
        d == digit_of(c),
{
    if c == '0' {
        Some(0)
    } else if c == '1' {
        Some(1)
    } else if c == '2' {
        Some(2)
    } else if c == '3' {
        Some(3)
    } else if c == '4' {
        Some(4)
    } else if c == '5' {
        Some(5)
    } else if c == '6' {
        Some(6)
    } else if c == '7' {
        Some(7)
    } else if c == '8' {
        Some(8)
    } else if c == '9' {
        Some(9)
    } else {
        None
    }
}

/// A count with one more digit appended, capped at the largest count.
pub open spec fn with_digit(count: Option<usize>, digit: usize) -> usize {
    let base = match count {
        Some(c) => c as int,
        None => 0,
    };
    if base * 10 + digit <= usize::MAX {
        (base * 10 + digit) as usize
    } else {
        usize::MAX
    }
}

/// Appends a digit to a count.
pub fn push_digit(count: Option<usize>, digit: usize) -> (r: usize)
    requires
        digit <= 9,
    ensures
        r == with_digit(count, digit),
{
    let base: usize = match count {
        Some(c) => c,
        None => 0,
    };
    match base.checked_mul(10) {
        Some(tens) => tens.saturating_add(digit),
        None => usize::MAX,
    }
}

} // verus!
