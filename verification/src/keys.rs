//! The closed vocabulary of key and modifier names: enumerated symbols and
//! the case-sensitive lookup tables over already lowercased tokens.

use vstd::prelude::*;
use crate::text::eq_lit;

verus! {

/// A primitive non-modifier key of the synthetic keyboard.
#[derive(Clone, Copy, Debug, PartialEq, Eq, Structural)]
pub enum Key {
    Enter,
    Esc,
    Up,
    Down,
    Left,
    Right,
    Home,
    PageUp,
    PageDown,
    End,
    Tab,
    Backspace,
    Delete,
    Insert,
    F1,
    F2,
    F3,
    F4,
    F5,
    F6,
    F7,
    F8,
    F9,
    F10,
    F11,
    F12,
    Num0,
    Num1,
    Num2,
    Num3,
    Num4,
    Num5,
    Num6,
    Num7,
    Num8,
    Num9,
    Space,
    Dot,
    Comma,
    Minus,
    Equal,
    Slash,
    Backslash,
    Semicolon,
    Apostrophe,
    LeftBrace,
    RightBrace,
    Grave,
    A,
    B,
    C,
    D,
    E,
    F,
    G,
    H,
    I,
    J,
    K,
    L,
    M,
    N,
    O,
    P,
    Q,
    R,
    S,
    T,
    U,
    V,
    W,
    X,
    Y,
    Z,
}

/// A modifier key, disjoint from `Key`.
#[derive(Clone, Copy, Debug, PartialEq, Eq, Structural)]
pub enum Modifier {
    LeftCtrl,
    RightCtrl,
    LeftAlt,
    RightAlt,
    LeftShift,
    RightShift,
    LeftMeta,
    RightMeta,
}

/// Navigation and editing key names.
pub open spec fn nav_key_of(s: Seq<char>) -> Option<Key> {
    if s == "select"@ || s == "enter"@ {
        Some(Key::Enter)
    } else if s == "exit"@ || s == "esc"@ {
        Some(Key::Esc)
    } else if s == "up"@ {
        Some(Key::Up)
    } else if s == "down"@ {
        Some(Key::Down)
    } else if s == "left"@ {
        Some(Key::Left)
    } else if s == "right"@ {
        Some(Key::Right)
    } else if s == "home"@ {
        Some(Key::Home)
    } else if s == "pageup"@ {
        Some(Key::PageUp)
    } else if s == "pagedown"@ {
        Some(Key::PageDown)
    } else if s == "end"@ {
        Some(Key::End)
    } else if s == "tab"@ {
        Some(Key::Tab)
    } else if s == "backspace"@ {
        Some(Key::Backspace)
    } else if s == "delete"@ {
        Some(Key::Delete)
    } else if s == "insert"@ {
        Some(Key::Insert)
    } else {
        None
    }
}

/// Function key names.
pub open spec fn function_key_of(s: Seq<char>) -> Option<Key> {
    if s == "f1"@ {
        Some(Key::F1)
    } else if s == "f2"@ {
        Some(Key::F2)
    } else if s == "f3"@ {
        Some(Key::F3)
    } else if s == "f4"@ {
        Some(Key::F4)
    } else if s == "f5"@ {
        Some(Key::F5)
    } else if s == "f6"@ {
        Some(Key::F6)
    } else if s == "f7"@ {
        Some(Key::F7)
    } else if s == "f8"@ {
        Some(Key::F8)
    } else if s == "f9"@ {
        Some(Key::F9)
    } else if s == "f10"@ {
        Some(Key::F10)
    } else if s == "f11"@ {
        Some(Key::F11)
    } else if s == "f12"@ {
        Some(Key::F12)
    } else {
        None
    }
}

/// Digit key names.
pub open spec fn digit_key_of(s: Seq<char>) -> Option<Key> {
    if s == "0"@ {
        Some(Key::Num0)
    } else if s == "1"@ {
        Some(Key::Num1)
    } else if s == "2"@ {
        Some(Key::Num2)
    } else if s == "3"@ {
        Some(Key::Num3)
    } else if s == "4"@ {
        Some(Key::Num4)
    } else if s == "5"@ {
        Some(Key::Num5)
    } else if s == "6"@ {
        Some(Key::Num6)
    } else if s == "7"@ {
        Some(Key::Num7)
    } else if s == "8"@ {
        Some(Key::Num8)
    } else if s == "9"@ {
        Some(Key::Num9)
    } else {
        None
    }
}

/// Punctuation and spacing key names.
pub open spec fn punct_key_of(s: Seq<char>) -> Option<Key> {
    if s == "space"@ || s == "spacebar"@ {
        Some(Key::Space)
    } else if s == "dot"@ {
        Some(Key::Dot)
    } else if s == "comma"@ {
        Some(Key::Comma)
    } else if s == "minus"@ {
        Some(Key::Minus)
    } else if s == "equal"@ {
        Some(Key::Equal)
    } else if s == "slash"@ {
        Some(Key::Slash)
    } else if s == "backslash"@ {
        Some(Key::Backslash)
    } else if s == "semicolon"@ {
        Some(Key::Semicolon)
    } else if s == "apostrophe"@ {
        Some(Key::Apostrophe)
    } else if s == "leftbrace"@ {
        Some(Key::LeftBrace)
    } else if s == "rightbrace"@ {
        Some(Key::RightBrace)
    } else if s == "grave"@ {
        Some(Key::Grave)
    } else {
        None
    }
}

/// Letter key names.
pub open spec fn letter_key_of(s: Seq<char>) -> Option<Key> {
    if s == "a"@ {
        Some(Key::A)
    } else if s == "b"@ {
        Some(Key::B)
    } else if s == "c"@ {
        Some(Key::C)
    } else if s == "d"@ {
        Some(Key::D)
    } else if s == "e"@ {
        Some(Key::E)
    } else if s == "f"@ {
        Some(Key::F)
    } else if s == "g"@ {
        Some(Key::G)
    } else if s == "h"@ {
        Some(Key::H)
    } else if s == "i"@ {
        Some(Key::I)
    } else if s == "j"@ {
        Some(Key::J)
    } else if s == "k"@ {
        Some(Key::K)
    } else if s == "l"@ {
        Some(Key::L)
    } else if s == "m"@ {
        Some(Key::M)
    } else if s == "n"@ {
        Some(Key::N)
    } else if s == "o"@ {
        Some(Key::O)
    } else if s == "p"@ {
        Some(Key::P)
    } else if s == "q"@ {
        Some(Key::Q)
    } else if s == "r"@ {
        Some(Key::R)
    } else if s == "s"@ {
        Some(Key::S)
    } else if s == "t"@ {
        Some(Key::T)
    } else if s == "u"@ {
        Some(Key::U)
    } else if s == "v"@ {
        Some(Key::V)
    } else if s == "w"@ {
        Some(Key::W)
    } else if s == "x"@ {
        Some(Key::X)
    } else if s == "y"@ {
        Some(Key::Y)
    } else if s == "z"@ {
        Some(Key::Z)
    } else {
        None
    }
}

/// Alternative spellings: arrow names and common abbreviations.
pub open spec fn alias_key_of(s: Seq<char>) -> Option<Key> {
    if s == "arrow_up"@ {
        Some(Key::Up)
    } else if s == "arrow_down"@ {
        Some(Key::Down)
    } else if s == "arrow_left"@ {
        Some(Key::Left)
    } else if s == "arrow_right"@ {
        Some(Key::Right)
    } else if s == "del"@ {
        Some(Key::Delete)
    } else if s == "ins"@ {
        Some(Key::Insert)
    } else if s == "pgup"@ {
        Some(Key::PageUp)
    } else if s == "pgdown"@ {
        Some(Key::PageDown)
    } else if s == "return"@ {
        Some(Key::Enter)
    } else {
        None
    }
}

/// The whole key-name table: every alias of every `Key`.
pub open spec fn key_of_name(s: Seq<char>) -> Option<Key> {
    match nav_key_of(s) {
        Some(k) => Some(k),
        None => match function_key_of(s) {
            Some(k) => Some(k),
            None => match digit_key_of(s) {
                Some(k) => Some(k),
                None => match punct_key_of(s) {
                    Some(k) => Some(k),
                    None => match letter_key_of(s) {
                        Some(k) => Some(k),
                        None => alias_key_of(s),
                    },
                },
            },
        },
    }
}

/// The modifier-name table: every alias of every `Modifier`.
pub open spec fn modifier_of_name(s: Seq<char>) -> Option<Modifier> {
    if s == "ctrl"@ || s == "control"@ || s == "lctrl"@ || s == "leftctrl"@ {
        Some(Modifier::LeftCtrl)
    } else if s == "rctrl"@ || s == "rightctrl"@ {
        Some(Modifier::RightCtrl)
    } else if s == "alt"@ || s == "lalt"@ || s == "leftalt"@ {
        Some(Modifier::LeftAlt)
    } else if s == "ralt"@ || s == "rightalt"@ {
        Some(Modifier::RightAlt)
    } else if s == "shift"@ || s == "lshift"@ || s == "leftshift"@ {
        Some(Modifier::LeftShift)
    } else if s == "rshift"@ || s == "rightshift"@ {
        Some(Modifier::RightShift)
    } else if s == "meta"@ || s == "super"@ || s == "lmeta"@ || s == "leftmeta"@ {
        Some(Modifier::LeftMeta)
    } else if s == "rmeta"@ || s == "rightmeta"@ {
        Some(Modifier::RightMeta)
    } else {
        None
    }
}

fn nav_key_from(tok: &[char]) -> (r: Option<Key>)
    ensures
        r == nav_key_of(tok@),
{
    if eq_lit(tok, "select") || eq_lit(tok, "enter") {
        Some(Key::Enter)
    } else if eq_lit(tok, "exit") || eq_lit(tok, "esc") {
        Some(Key::Esc)
    } else if eq_lit(tok, "up") {
        Some(Key::Up)
    } else if eq_lit(tok, "down") {
        Some(Key::Down)
    } else if eq_lit(tok, "left") {
        Some(Key::Left)
    } else if eq_lit(tok, "right") {
        Some(Key::Right)
    } else if eq_lit(tok, "home") {
        Some(Key::Home)
    } else if eq_lit(tok, "pageup") {
        Some(Key::PageUp)
    } else if eq_lit(tok, "pagedown") {
        Some(Key::PageDown)
    } else if eq_lit(tok, "end") {
        Some(Key::End)
    } else if eq_lit(tok, "tab") {
        Some(Key::Tab)
    } else if eq_lit(tok, "backspace") {
        Some(Key::Backspace)
    } else if eq_lit(tok, "delete") {
        Some(Key::Delete)
    } else if eq_lit(tok, "insert") {
        Some(Key::Insert)
    } else {
        None
    }
}

fn function_key_from(tok: &[char]) -> (r: Option<Key>)
    ensures
        r == function_key_of(tok@),
{
    if eq_lit(tok, "f1") {
        Some(Key::F1)
    } else if eq_lit(tok, "f2") {
        Some(Key::F2)
    } else if eq_lit(tok, "f3") {
        Some(Key::F3)
    } else if eq_lit(tok, "f4") {
        Some(Key::F4)
    } else if eq_lit(tok, "f5") {
        Some(Key::F5)
    } else if eq_lit(tok, "f6") {
        Some(Key::F6)
    } else if eq_lit(tok, "f7") {
        Some(Key::F7)
    } else if eq_lit(tok, "f8") {
        Some(Key::F8)
    } else if eq_lit(tok, "f9") {
        Some(Key::F9)
    } else if eq_lit(tok, "f10") {
        Some(Key::F10)
    } else if eq_lit(tok, "f11") {
        Some(Key::F11)
    } else if eq_lit(tok, "f12") {
        Some(Key::F12)
    } else {
        None
    }
}

fn digit_key_from(tok: &[char]) -> (r: Option<Key>)
    ensures
        r == digit_key_of(tok@),
{
    if eq_lit(tok, "0") {
        Some(Key::Num0)
    } else if eq_lit(tok, "1") {
        Some(Key::Num1)
    } else if eq_lit(tok, "2") {
        Some(Key::Num2)
    } else if eq_lit(tok, "3") {
        Some(Key::Num3)
    } else if eq_lit(tok, "4") {
        Some(Key::Num4)
    } else if eq_lit(tok, "5") {
        Some(Key::Num5)
    } else if eq_lit(tok, "6") {
        Some(Key::Num6)
    } else if eq_lit(tok, "7") {
        Some(Key::Num7)
    } else if eq_lit(tok, "8") {
        Some(Key::Num8)
    } else if eq_lit(tok, "9") {
        Some(Key::Num9)
    } else {
        None
    }
}

fn punct_key_from(tok: &[char]) -> (r: Option<Key>)
    ensures
        r == punct_key_of(tok@),
{
    if eq_lit(tok, "space") || eq_lit(tok, "spacebar") {
        Some(Key::Space)
    } else if eq_lit(tok, "dot") {
        Some(Key::Dot)
    } else if eq_lit(tok, "comma") {
        Some(Key::Comma)
    } else if eq_lit(tok, "minus") {
        Some(Key::Minus)
    } else if eq_lit(tok, "equal") {
        Some(Key::Equal)
    } else if eq_lit(tok, "slash") {
        Some(Key::Slash)
    } else if eq_lit(tok, "backslash") {
        Some(Key::Backslash)
    } else if eq_lit(tok, "semicolon") {
        Some(Key::Semicolon)
    } else if eq_lit(tok, "apostrophe") {
        Some(Key::Apostrophe)
    } else if eq_lit(tok, "leftbrace") {
        Some(Key::LeftBrace)
    } else if eq_lit(tok, "rightbrace") {
        Some(Key::RightBrace)
    } else if eq_lit(tok, "grave") {
        Some(Key::Grave)
    } else {
        None
    }
}

fn letter_key_from(tok: &[char]) -> (r: Option<Key>)
    ensures
        r == letter_key_of(tok@),
{
    if eq_lit(tok, "a") {
        Some(Key::A)
    } else if eq_lit(tok, "b") {
        Some(Key::B)
    } else if eq_lit(tok, "c") {
        Some(Key::C)
    } else if eq_lit(tok, "d") {
        Some(Key::D)
    } else if eq_lit(tok, "e") {
        Some(Key::E)
    } else if eq_lit(tok, "f") {
        Some(Key::F)
    } else if eq_lit(tok, "g") {
        Some(Key::G)
    } else if eq_lit(tok, "h") {
        Some(Key::H)
    } else if eq_lit(tok, "i") {
        Some(Key::I)
    } else if eq_lit(tok, "j") {
        Some(Key::J)
    } else if eq_lit(tok, "k") {
        Some(Key::K)
    } else if eq_lit(tok, "l") {
        Some(Key::L)
    } else if eq_lit(tok, "m") {
        Some(Key::M)
    } else if eq_lit(tok, "n") {
        Some(Key::N)
    } else if eq_lit(tok, "o") {
        Some(Key::O)
    } else if eq_lit(tok, "p") {
        Some(Key::P)
    } else if eq_lit(tok, "q") {
        Some(Key::Q)
    } else if eq_lit(tok, "r") {
        Some(Key::R)
    } else if eq_lit(tok, "s") {
        Some(Key::S)
    } else if eq_lit(tok, "t") {
        Some(Key::T)
    } else if eq_lit(tok, "u") {
        Some(Key::U)
    } else if eq_lit(tok, "v") {
        Some(Key::V)
    } else if eq_lit(tok, "w") {
        Some(Key::W)
    } else if eq_lit(tok, "x") {
        Some(Key::X)
    } else if eq_lit(tok, "y") {
        Some(Key::Y)
    } else if eq_lit(tok, "z") {
        Some(Key::Z)
    } else {
        None
    }
}

fn alias_key_from(tok: &[char]) -> (r: Option<Key>)
    ensures
        r == alias_key_of(tok@),
{
    if eq_lit(tok, "arrow_up") {
        Some(Key::Up)
    } else if eq_lit(tok, "arrow_down") {
        Some(Key::Down)
    } else if eq_lit(tok, "arrow_left") {
        Some(Key::Left)
    } else if eq_lit(tok, "arrow_right") {
        Some(Key::Right)
    } else if eq_lit(tok, "del") {
        Some(Key::Delete)
    } else if eq_lit(tok, "ins") {
        Some(Key::Insert)
    } else if eq_lit(tok, "pgup") {
        Some(Key::PageUp)
    } else if eq_lit(tok, "pgdown") {
        Some(Key::PageDown)
    } else if eq_lit(tok, "return") {
        Some(Key::Enter)
    } else {
        None
    }
}

/// Resolve a lowercased token as a key name.
pub fn key_from_name(tok: &[char]) -> (r: Option<Key>)
    ensures
        r == key_of_name(tok@),
{
    match nav_key_from(tok) {
        Some(k) => Some(k),
        None => match function_key_from(tok) {
            Some(k) => Some(k),
            None => match digit_key_from(tok) {
                Some(k) => Some(k),
                None => match punct_key_from(tok) {
                    Some(k) => Some(k),
                    None => match letter_key_from(tok) {
                        Some(k) => Some(k),
                        None => alias_key_from(tok),
                    },
                },
            },
        },
    }
}

/// Resolve a lowercased token as a modifier name.
pub fn modifier_from_name(tok: &[char]) -> (r: Option<Modifier>)
    ensures
        r == modifier_of_name(tok@),
{
    if eq_lit(tok, "ctrl") || eq_lit(tok, "control") || eq_lit(tok, "lctrl") || eq_lit(
        tok,
        "leftctrl",
    ) {
        Some(Modifier::LeftCtrl)
    } else if eq_lit(tok, "rctrl") || eq_lit(tok, "rightctrl") {
        Some(Modifier::RightCtrl)
    } else if eq_lit(tok, "alt") || eq_lit(tok, "lalt") || eq_lit(tok, "leftalt") {
        Some(Modifier::LeftAlt)
    } else if eq_lit(tok, "ralt") || eq_lit(tok, "rightalt") {
        Some(Modifier::RightAlt)
    } else if eq_lit(tok, "shift") || eq_lit(tok, "lshift") || eq_lit(tok, "leftshift") {
        Some(Modifier::LeftShift)
    } else if eq_lit(tok, "rshift") || eq_lit(tok, "rightshift") {
        Some(Modifier::RightShift)
    } else if eq_lit(tok, "meta") || eq_lit(tok, "super") || eq_lit(tok, "lmeta") || eq_lit(
        tok,
        "leftmeta",
    ) {
        Some(Modifier::LeftMeta)
    } else if eq_lit(tok, "rmeta") || eq_lit(tok, "rightmeta") {
        Some(Modifier::RightMeta)
    } else {
        None
    }
}

} // verus!
