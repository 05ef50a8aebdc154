//! Key reports from console-record backends: a tag per recognized key, and
//! the mapping from the platform's virtual-key codes and printable code
//! units onto it.

use vstd::prelude::*;

verus! {

/// A key as a console-record backend reports it.
#[derive(Debug, PartialEq, Eq, Clone, Copy, Structural)]
pub enum Key {
    /// A printable character.
    Char(char),
    Backspace,
    Tab,
    Enter,
    Shift,
    Control,
    Alt,
    CapsLock,
    Escape,
    Space,
    LeftArrow,
    RightArrow,
    UpArrow,
    DownArrow,
    /// A control key this layer does not map, carried as its code.
    UnhandledControl(char),
    /// A report outside the range this layer can represent.
    OutOfRange,
}

/// The key a virtual-key code stands for: the named keys of the console
/// API's table, any other byte-sized code as `UnhandledControl`, and
/// anything larger as `OutOfRange`.
pub open spec fn spec_from_virtual_code(virtual_code: u16) -> Key {
    if virtual_code == 8 {
        Key::Backspace
    } else if virtual_code == 9 {
        Key::Tab
    } else if virtual_code == 13 {
        Key::Enter
    } else if virtual_code == 16 {
        Key::Shift
    } else if virtual_code == 17 {
        Key::Control
    } else if virtual_code == 18 {
        Key::Alt
    } else if virtual_code == 20 {
        Key::CapsLock
    } else if virtual_code == 27 {
        Key::Escape
    } else if virtual_code == 32 {
        Key::Space
    } else if virtual_code == 37 {
        Key::LeftArrow
    } else if virtual_code == 39 {
        Key::RightArrow
    } else if virtual_code == 38 {
        Key::UpArrow
    } else if virtual_code == 40 {
        Key::DownArrow
    } else if virtual_code <= 255 {
        Key::UnhandledControl((virtual_code as u8) as char)
    } else {
        Key::OutOfRange
    }
}

/// Relies on char::from_u32: a value below the surrogate range is a valid
/// Unicode scalar value, and the conversion yields the scalar with exactly
/// that value.
#[verifier::external_body]
fn char_from_u16(code: u16) -> (r: char)
    requires
        !(0xd800 <= code < 0xe000),
    ensures
        r == code as char,
{
    char::from_u32(code as u32).expect("a non-surrogate code unit is a scalar value")
}

impl Key {
    /// Maps a console virtual-key code to the key it stands for, exactly as
    /// [`spec_from_virtual_code`] states.
    pub fn from_virtual_code(virtual_code: u16) -> (r: Self)
        ensures
            r == spec_from_virtual_code(virtual_code),
    {
        if virtual_code == 8 {
            Key::Backspace
        } else if virtual_code == 9 {
            Key::Tab
        } else if virtual_code == 13 {
            Key::Enter
        } else if virtual_code == 16 {
            Key::Shift
        } else if virtual_code == 17 {
            Key::Control
        } else if virtual_code == 18 {
            Key::Alt
        } else if virtual_code == 20 {
            Key::CapsLock
        } else if virtual_code == 27 {
            Key::Escape
        } else if virtual_code == 32 {
            Key::Space
        } else if virtual_code == 37 {
            Key::LeftArrow
        } else if virtual_code == 39 {
            Key::RightArrow
        } else if virtual_code == 38 {
            Key::UpArrow
        } else if virtual_code == 40 {
            Key::DownArrow
        } else if virtual_code <= 255 {
            Key::UnhandledControl((virtual_code as u8) as char)
        } else {
            Key::OutOfRange
        }
    }

    /// Wraps a printable UTF-16 code unit as a character key. Surrogate
    /// halves are not scalar values and are left out: a caller must pair
    /// them before asking.
    pub fn from_printable(code: u16) -> (r: Self)
        requires
            !(0xd800 <= code < 0xe000),
        ensures
            r == Key::Char(code as char),
    {
        Key::Char(char_from_u16(code))
    }
}

} // verus!
