//! Names of keys and mouse buttons as scripts spell them.

use vstd::prelude::*;
use crate::text::str_eq;

verus! {

/// ASCII letters and digits.
pub open spec fn is_ascii_alnum(c: char) -> bool {
    ('0' <= c && c <= '9') || ('a' <= c && c <= 'z') || ('A' <= c && c <= 'Z')
}

/// The lower-case form of an ASCII capital; every other character is kept.
pub open spec fn ascii_lower(c: char) -> char {
    if 'A' <= c && c <= 'Z' {
        ((c as u8) + 32) as char
    } else {
        c
    }
}

/// A name with everything but ASCII letters and digits dropped, in lower case.
pub open spec fn normalized(name: Seq<char>) -> Seq<char> {
    name.filter(|c: char| is_ascii_alnum(c)).map_values(|c: char| ascii_lower(c))
}

fn lower(c: char) -> (r: char)
    ensures
        r == ascii_lower(c),
{
    if c >= 'A' && c <= 'Z' {
        ((c as u8) + 32) as char
    } else {
        c
    }
}

/// Reduces a key or button name to the form the lookup tables are keyed by:
/// separators, spaces and any other character that is no ASCII letter or digit
/// are dropped, and capitals become lower case.
pub fn normalize_name(name: &str) -> (r: String)
    ensures
        r@ == normalized(name@),
{
    let n = name.unicode_len();
    let mut out = String::new();
    let mut i: usize = 0;
    proof {
        reveal(Seq::filter);
        assert(name@.take(0) =~= Seq::<char>::empty());
        assert(normalized(name@.take(0)) =~= Seq::<char>::empty());
    }
    while i < n
        invariant
            n == name@.len(),
            i <= n,
            out@ == normalized(name@.take(i as int)),
        decreases n - i,
    {
        let c = name.get_char(i);
        proof {
            reveal(Seq::filter);
            let next = name@.take(i + 1);
            assert(next.drop_last() =~= name@.take(i as int));
            assert(next.last() == c);
            let kept = name@.take(i as int).filter(|c: char| is_ascii_alnum(c));
            if is_ascii_alnum(c) {
                assert(next.filter(|c: char| is_ascii_alnum(c)) == kept.push(c));
                assert(kept.push(c).map_values(|c: char| ascii_lower(c))
                    =~= kept.map_values(|c: char| ascii_lower(c)).push(ascii_lower(c)));
            } else {
                assert(next.filter(|c: char| is_ascii_alnum(c)) == kept);
            }
        }
        if (c >= '0' && c <= '9') || (c >= 'a' && c <= 'z') || (c >= 'A' && c <= 'Z') {
            out.push(lower(c));
        }
        i += 1;
    }
    proof {
        assert(name@.take(n as int) =~= name@);
    }
    out
}

/// A key of the keyboard.
#[derive(Clone, Copy, Debug, PartialEq, Eq, Structural)]
pub enum Key {
    Space,
    Apostrophe,
    Comma,
    Minus,
    Period,
    Slash,
    Key0,
    Key1,
    Key2,
    Key3,
    Key4,
    Key5,
    Key6,
    Key7,
    Key8,
    Key9,
    Semicolon,
    Equal,
    A,
    B,
    C,
    D,
    E,
    F,
    G,
    H,
    I,
    J,
    K,
    L,
    M,
    N,
    O,
    P,
    Q,
    R,
    S,
    T,
    U,
    V,
    W,
    X,
    Y,
    Z,
    LeftBracket,
    Backslash,
    RightBracket,
    GraveAccent,
    World1,
    World2,
    Escape,
    Enter,
    Tab,
    Backspace,
    Insert,
    Delete,
    Right,
    Left,
    Down,
    Up,
    PageUp,
    PageDown,
    Home,
    End,
    CapsLock,
    ScrollLock,
    NumLock,
    PrintScreen,
    Pause,
    F1,
    F2,
    F3,
    F4,
    F5,
    F6,
    F7,
    F8,
    F9,
    F10,
    F11,
    F12,
    F13,
    F14,
    F15,
    F16,
    F17,
    F18,
    F19,
    F20,
    F21,
    F22,
    F23,
    F24,
    F25,
    Kp0,
    Kp1,
    Kp2,
    Kp3,
    Kp4,
    Kp5,
    Kp6,
    Kp7,
    Kp8,
    Kp9,
    KpDecimal,
    KpDivide,
    KpMultiply,
    KpSubtract,
    KpAdd,
    KpEnter,
    KpEqual,
    LeftShift,
    LeftControl,
    LeftAlt,
    LeftSuper,
    RightShift,
    RightControl,
    RightAlt,
    RightSuper,
    Menu,
    Back,
    Unknown,
}

/// A button of the mouse.
#[derive(Clone, Copy, Debug, PartialEq, Eq, Structural)]
pub enum MouseButton {
    Left,
    Right,
    Middle,
}

/// The key that a normalized name stands for. Letters and digits stand for
/// themselves, the other keys go by their names, and the common keys have
/// further names.
pub open spec fn key_named(name: Seq<char>) -> Option<Key> {
    if name == "a"@ {
        Some(Key::A)
    }     else if name == "b"@ {
        Some(Key::B)
    }     else if name == "c"@ {
        Some(Key::C)
    }     else if name == "d"@ {
        Some(Key::D)
    }     else if name == "e"@ {
        Some(Key::E)
    }     else if name == "f"@ {
        Some(Key::F)
    }     else if name == "g"@ {
        Some(Key::G)
    }     else if name == "h"@ {
        Some(Key::H)
    }     else if name == "i"@ {
        Some(Key::I)
    }     else if name == "j"@ {
        Some(Key::J)
    }     else if name == "k"@ {
        Some(Key::K)
    }     else if name == "l"@ {
        Some(Key::L)
    }     else if name == "m"@ {
        Some(Key::M)
    }     else if name == "n"@ {
        Some(Key::N)
    }     else if name == "o"@ {
        Some(Key::O)
    }     else if name == "p"@ {
        Some(Key::P)
    }     else if name == "q"@ {
        Some(Key::Q)
    }     else if name == "r"@ {
        Some(Key::R)
    }     else if name == "s"@ {
        Some(Key::S)
    }     else if name == "t"@ {
        Some(Key::T)
    }     else if name == "u"@ {
        Some(Key::U)
    }     else if name == "v"@ {
        Some(Key::V)
    }     else if name == "w"@ {
        Some(Key::W)
    }     else if name == "x"@ {
        Some(Key::X)
    }     else if name == "y"@ {
        Some(Key::Y)
    }     else if name == "z"@ {
        Some(Key::Z)
    }     else if name == "0"@ || name == "key0"@ {
        Some(Key::Key0)
    }     else if name == "1"@ || name == "key1"@ {
        Some(Key::Key1)
    }     else if name == "2"@ || name == "key2"@ {
        Some(Key::Key2)
    }     else if name == "3"@ || name == "key3"@ {
        Some(Key::Key3)
    }     else if name == "4"@ || name == "key4"@ {
        Some(Key::Key4)
    }     else if name == "5"@ || name == "key5"@ {
        Some(Key::Key5)
    }     else if name == "6"@ || name == "key6"@ {
        Some(Key::Key6)
    }     else if name == "7"@ || name == "key7"@ {
        Some(Key::Key7)
    }     else if name == "8"@ || name == "key8"@ {
        Some(Key::Key8)
    }     else if name == "9"@ || name == "key9"@ {
        Some(Key::Key9)
    }     else if name == "space"@ {
        Some(Key::Space)
    }     else if name == "apostrophe"@ || name == "quote"@ || name == "singlequote"@ {
        Some(Key::Apostrophe)
    }     else if name == "comma"@ {
        Some(Key::Comma)
    }     else if name == "minus"@ || name == "dash"@ {
        Some(Key::Minus)
    }     else if name == "period"@ || name == "dot"@ {
        Some(Key::Period)
    }     else if name == "slash"@ || name == "forwardslash"@ {
        Some(Key::Slash)
    }     else if name == "semicolon"@ {
        Some(Key::Semicolon)
    }     else if name == "equal"@ || name == "equals"@ {
        Some(Key::Equal)
    }     else if name == "leftbracket"@ || name == "lbracket"@ {
        Some(Key::LeftBracket)
    }     else if name == "backslash"@ {
        Some(Key::Backslash)
    }     else if name == "rightbracket"@ || name == "rbracket"@ {
        Some(Key::RightBracket)
    }     else if name == "graveaccent"@ || name == "grave"@ || name == "backtick"@ {
        Some(Key::GraveAccent)
    }     else if name == "world1"@ {
        Some(Key::World1)
    }     else if name == "world2"@ {
        Some(Key::World2)
    }     else if name == "escape"@ || name == "esc"@ {
        Some(Key::Escape)
    }     else if name == "enter"@ || name == "return"@ {
        Some(Key::Enter)
    }     else if name == "tab"@ {
        Some(Key::Tab)
    }     else if name == "backspace"@ {
        Some(Key::Backspace)
    }     else if name == "insert"@ {
        Some(Key::Insert)
    }     else if name == "delete"@ || name == "del"@ {
        Some(Key::Delete)
    }     else if name == "right"@ || name == "arrowright"@ || name == "rightarrow"@ {
        Some(Key::Right)
    }     else if name == "left"@ || name == "arrowleft"@ || name == "leftarrow"@ {
        Some(Key::Left)
    }     else if name == "down"@ || name == "arrowdown"@ || name == "downarrow"@ {
        Some(Key::Down)
    }     else if name == "up"@ || name == "arrowup"@ || name == "uparrow"@ {
        Some(Key::Up)
    }     else if name == "pageup"@ {
        Some(Key::PageUp)
    }     else if name == "pagedown"@ {
        Some(Key::PageDown)
    }     else if name == "home"@ {
        Some(Key::Home)
    }     else if name == "end"@ {
        Some(Key::End)
    }     else if name == "capslock"@ {
        Some(Key::CapsLock)
    }     else if name == "scrolllock"@ {
        Some(Key::ScrollLock)
    }     else if name == "numlock"@ {
        Some(Key::NumLock)
    }     else if name == "printscreen"@ {
        Some(Key::PrintScreen)
    }     else if name == "pause"@ {
        Some(Key::Pause)
    }     else if name == "f1"@ {
        Some(Key::F1)
    }     else if name == "f2"@ {
        Some(Key::F2)
    }     else if name == "f3"@ {
        Some(Key::F3)
    }     else if name == "f4"@ {
        Some(Key::F4)
    }     else if name == "f5"@ {
        Some(Key::F5)
    }     else if name == "f6"@ {
        Some(Key::F6)
    }     else if name == "f7"@ {
        Some(Key::F7)
    }     else if name == "f8"@ {
        Some(Key::F8)
    }     else if name == "f9"@ {
        Some(Key::F9)
    }     else if name == "f10"@ {
        Some(Key::F10)
    }     else if name == "f11"@ {
        Some(Key::F11)
    }     else if name == "f12"@ {
        Some(Key::F12)
    }     else if name == "f13"@ {
        Some(Key::F13)
    }     else if name == "f14"@ {
        Some(Key::F14)
    }     else if name == "f15"@ {
        Some(Key::F15)
    }     else if name == "f16"@ {
        Some(Key::F16)
    }     else if name == "f17"@ {
        Some(Key::F17)
    }     else if name == "f18"@ {
        Some(Key::F18)
    }     else if name == "f19"@ {
        Some(Key::F19)
    }     else if name == "f20"@ {
        Some(Key::F20)
    }     else if name == "f21"@ {
        Some(Key::F21)
    }     else if name == "f22"@ {
        Some(Key::F22)
    }     else if name == "f23"@ {
        Some(Key::F23)
    }     else if name == "f24"@ {
        Some(Key::F24)
    }     else if name == "f25"@ {
        Some(Key::F25)
    }     else if name == "kp0"@ || name == "numpad0"@ {
        Some(Key::Kp0)
    }     else if name == "kp1"@ || name == "numpad1"@ {
        Some(Key::Kp1)
    }     else if name == "kp2"@ || name == "numpad2"@ {
        Some(Key::Kp2)
    }     else if name == "kp3"@ || name == "numpad3"@ {
        Some(Key::Kp3)
    }     else if name == "kp4"@ || name == "numpad4"@ {
        Some(Key::Kp4)
    }     else if name == "kp5"@ || name == "numpad5"@ {
        Some(Key::Kp5)
    }     else if name == "kp6"@ || name == "numpad6"@ {
        Some(Key::Kp6)
    }     else if name == "kp7"@ || name == "numpad7"@ {
        Some(Key::Kp7)
    }     else if name == "kp8"@ || name == "numpad8"@ {
        Some(Key::Kp8)
    }     else if name == "kp9"@ || name == "numpad9"@ {
        Some(Key::Kp9)
    }     else if name == "kpdecimal"@ || name == "numpaddecimal"@ {
        Some(Key::KpDecimal)
    }     else if name == "kpdivide"@ || name == "numpaddivide"@ {
        Some(Key::KpDivide)
    }     else if name == "kpmultiply"@ || name == "numpadmultiply"@ {
        Some(Key::KpMultiply)
    }     else if name == "kpsubtract"@ || name == "numpadsubtract"@ {
        Some(Key::KpSubtract)
    }     else if name == "kpadd"@ || name == "numpadadd"@ {
        Some(Key::KpAdd)
    }     else if name == "kpenter"@ || name == "numpadenter"@ {
        Some(Key::KpEnter)
    }     else if name == "kpequal"@ || name == "numpadequal"@ {
        Some(Key::KpEqual)
    }     else if name == "leftshift"@ || name == "lshift"@ || name == "shift"@ {
        Some(Key::LeftShift)
    }     else if name == "leftcontrol"@ || name == "leftctrl"@ || name == "lcontrol"@ || name == "lctrl"@ || name == "control"@ || name == "ctrl"@ {
        Some(Key::LeftControl)
    }     else if name == "leftalt"@ || name == "lalt"@ || name == "alt"@ || name == "option"@ {
        Some(Key::LeftAlt)
    }     else if name == "leftsuper"@ || name == "lsuper"@ || name == "super"@ || name == "meta"@ || name == "cmd"@ || name == "command"@ || name == "win"@ || name == "windows"@ {
        Some(Key::LeftSuper)
    }     else if name == "rightshift"@ || name == "rshift"@ {
        Some(Key::RightShift)
    }     else if name == "rightcontrol"@ || name == "rightctrl"@ || name == "rcontrol"@ || name == "rctrl"@ {
        Some(Key::RightControl)
    }     else if name == "rightalt"@ || name == "ralt"@ {
        Some(Key::RightAlt)
    }     else if name == "rightsuper"@ || name == "rsuper"@ {
        Some(Key::RightSuper)
    }     else if name == "menu"@ {
        Some(Key::Menu)
    }     else if name == "back"@ {
        Some(Key::Back)
    } else {
        None
    }
}

/// The mouse button that a normalized name stands for.
pub open spec fn button_named(name: Seq<char>) -> Option<MouseButton> {
    if name == "left"@ || name == "lmb"@ || name == "mouseleft"@ {
        Some(MouseButton::Left)
    } else if name == "right"@ || name == "rmb"@ || name == "mouseright"@ {
        Some(MouseButton::Right)
    } else if name == "middle"@ || name == "mmb"@ || name == "mousemiddle"@ || name == "wheel"@ {
        Some(MouseButton::Middle)
    } else {
        None
    }
}

/// The name under which a key is reported to scripts.
pub open spec fn name_of_key(key: Key) -> Seq<char> {
    match key {
        Key::Space => "Space"@,
        Key::Apostrophe => "Apostrophe"@,
        Key::Comma => "Comma"@,
        Key::Minus => "Minus"@,
        Key::Period => "Period"@,
        Key::Slash => "Slash"@,
        Key::Key0 => "0"@,
        Key::Key1 => "1"@,
        Key::Key2 => "2"@,
        Key::Key3 => "3"@,
        Key::Key4 => "4"@,
        Key::Key5 => "5"@,
        Key::Key6 => "6"@,
        Key::Key7 => "7"@,
        Key::Key8 => "8"@,
        Key::Key9 => "9"@,
        Key::Semicolon => "Semicolon"@,
        Key::Equal => "Equal"@,
        Key::A => "A"@,
        Key::B => "B"@,
        Key::C => "C"@,
        Key::D => "D"@,
        Key::E => "E"@,
        Key::F => "F"@,
        Key::G => "G"@,
        Key::H => "H"@,
        Key::I => "I"@,
        Key::J => "J"@,
        Key::K => "K"@,
        Key::L => "L"@,
        Key::M => "M"@,
        Key::N => "N"@,
        Key::O => "O"@,
        Key::P => "P"@,
        Key::Q => "Q"@,
        Key::R => "R"@,
        Key::S => "S"@,
        Key::T => "T"@,
        Key::U => "U"@,
        Key::V => "V"@,
        Key::W => "W"@,
        Key::X => "X"@,
        Key::Y => "Y"@,
        Key::Z => "Z"@,
        Key::LeftBracket => "LeftBracket"@,
        Key::Backslash => "Backslash"@,
        Key::RightBracket => "RightBracket"@,
        Key::GraveAccent => "GraveAccent"@,
        Key::World1 => "World1"@,
        Key::World2 => "World2"@,
        Key::Escape => "Escape"@,
        Key::Enter => "Enter"@,
        Key::Tab => "Tab"@,
        Key::Backspace => "Backspace"@,
        Key::Insert => "Insert"@,
        Key::Delete => "Delete"@,
        Key::Right => "Right"@,
        Key::Left => "Left"@,
        Key::Down => "Down"@,
        Key::Up => "Up"@,
        Key::PageUp => "PageUp"@,
        Key::PageDown => "PageDown"@,
        Key::Home => "Home"@,
        Key::End => "End"@,
        Key::CapsLock => "CapsLock"@,
        Key::ScrollLock => "ScrollLock"@,
        Key::NumLock => "NumLock"@,
        Key::PrintScreen => "PrintScreen"@,
        Key::Pause => "Pause"@,
        Key::F1 => "F1"@,
        Key::F2 => "F2"@,
        Key::F3 => "F3"@,
        Key::F4 => "F4"@,
        Key::F5 => "F5"@,
        Key::F6 => "F6"@,
        Key::F7 => "F7"@,
        Key::F8 => "F8"@,
        Key::F9 => "F9"@,
        Key::F10 => "F10"@,
        Key::F11 => "F11"@,
        Key::F12 => "F12"@,
        Key::F13 => "F13"@,
        Key::F14 => "F14"@,
        Key::F15 => "F15"@,
        Key::F16 => "F16"@,
        Key::F17 => "F17"@,
        Key::F18 => "F18"@,
        Key::F19 => "F19"@,
        Key::F20 => "F20"@,
        Key::F21 => "F21"@,
        Key::F22 => "F22"@,
        Key::F23 => "F23"@,
        Key::F24 => "F24"@,
        Key::F25 => "F25"@,
        Key::Kp0 => "Kp0"@,
        Key::Kp1 => "Kp1"@,
        Key::Kp2 => "Kp2"@,
        Key::Kp3 => "Kp3"@,
        Key::Kp4 => "Kp4"@,
        Key::Kp5 => "Kp5"@,
        Key::Kp6 => "Kp6"@,
        Key::Kp7 => "Kp7"@,
        Key::Kp8 => "Kp8"@,
        Key::Kp9 => "Kp9"@,
        Key::KpDecimal => "KpDecimal"@,
        Key::KpDivide => "KpDivide"@,
        Key::KpMultiply => "KpMultiply"@,
        Key::KpSubtract => "KpSubtract"@,
        Key::KpAdd => "KpAdd"@,
        Key::KpEnter => "KpEnter"@,
        Key::KpEqual => "KpEqual"@,
        Key::LeftShift => "LeftShift"@,
        Key::LeftControl => "LeftControl"@,
        Key::LeftAlt => "LeftAlt"@,
        Key::LeftSuper => "LeftSuper"@,
        Key::RightShift => "RightShift"@,
        Key::RightControl => "RightControl"@,
        Key::RightAlt => "RightAlt"@,
        Key::RightSuper => "RightSuper"@,
        Key::Menu => "Menu"@,
        Key::Back => "Back"@,
        Key::Unknown => "Unknown"@,
    }
}

/// The key that `key` names, whatever its case and its separators.
pub fn parse_key_code(key: &str) -> (r: Option<Key>)
    ensures
        r == key_named(normalized(key@)),
{
    let normal = normalize_name(key);
    let name = normal.as_str();
    if str_eq(name, "a") {
        Some(Key::A)
    }     else if str_eq(name, "b") {
        Some(Key::B)
    }     else if str_eq(name, "c") {
        Some(Key::C)
    }     else if str_eq(name, "d") {
        Some(Key::D)
    }     else if str_eq(name, "e") {
        Some(Key::E)
    }     else if str_eq(name, "f") {
        Some(Key::F)
    }     else if str_eq(name, "g") {
        Some(Key::G)
    }     else if str_eq(name, "h") {
        Some(Key::H)
    }     else if str_eq(name, "i") {
        Some(Key::I)
    }     else if str_eq(name, "j") {
        Some(Key::J)
    }     else if str_eq(name, "k") {
        Some(Key::K)
    }     else if str_eq(name, "l") {
        Some(Key::L)
    }     else if str_eq(name, "m") {
        Some(Key::M)
    }     else if str_eq(name, "n") {
        Some(Key::N)
    }     else if str_eq(name, "o") {
        Some(Key::O)
    }     else if str_eq(name, "p") {
        Some(Key::P)
    }     else if str_eq(name, "q") {
        Some(Key::Q)
    }     else if str_eq(name, "r") {
        Some(Key::R)
    }     else if str_eq(name, "s") {
        Some(Key::S)
    }     else if str_eq(name, "t") {
        Some(Key::T)
    }     else if str_eq(name, "u") {
        Some(Key::U)
    }     else if str_eq(name, "v") {
        Some(Key::V)
    }     else if str_eq(name, "w") {
        Some(Key::W)
    }     else if str_eq(name, "x") {
        Some(Key::X)
    }     else if str_eq(name, "y") {
        Some(Key::Y)
    }     else if str_eq(name, "z") {
        Some(Key::Z)
    }     else if str_eq(name, "0") || str_eq(name, "key0") {
        Some(Key::Key0)
    }     else if str_eq(name, "1") || str_eq(name, "key1") {
        Some(Key::Key1)
    }     else if str_eq(name, "2") || str_eq(name, "key2") {
        Some(Key::Key2)
    }     else if str_eq(name, "3") || str_eq(name, "key3") {
        Some(Key::Key3)
    }     else if str_eq(name, "4") || str_eq(name, "key4") {
        Some(Key::Key4)
    }     else if str_eq(name, "5") || str_eq(name, "key5") {
        Some(Key::Key5)
    }     else if str_eq(name, "6") || str_eq(name, "key6") {
        Some(Key::Key6)
    }     else if str_eq(name, "7") || str_eq(name, "key7") {
        Some(Key::Key7)
    }     else if str_eq(name, "8") || str_eq(name, "key8") {
        Some(Key::Key8)
    }     else if str_eq(name, "9") || str_eq(name, "key9") {
        Some(Key::Key9)
    }     else if str_eq(name, "space") {
        Some(Key::Space)
    }     else if str_eq(name, "apostrophe") || str_eq(name, "quote") || str_eq(name, "singlequote") {
        Some(Key::Apostrophe)
    }     else if str_eq(name, "comma") {
        Some(Key::Comma)
    }     else if str_eq(name, "minus") || str_eq(name, "dash") {
        Some(Key::Minus)
    }     else if str_eq(name, "period") || str_eq(name, "dot") {
        Some(Key::Period)
    }     else if str_eq(name, "slash") || str_eq(name, "forwardslash") {
        Some(Key::Slash)
    }     else if str_eq(name, "semicolon") {
        Some(Key::Semicolon)
    }     else if str_eq(name, "equal") || str_eq(name, "equals") {
        Some(Key::Equal)
    }     else if str_eq(name, "leftbracket") || str_eq(name, "lbracket") {
        Some(Key::LeftBracket)
    }     else if str_eq(name, "backslash") {
        Some(Key::Backslash)
    }     else if str_eq(name, "rightbracket") || str_eq(name, "rbracket") {
        Some(Key::RightBracket)
    }     else if str_eq(name, "graveaccent") || str_eq(name, "grave") || str_eq(name, "backtick") {
        Some(Key::GraveAccent)
    }     else if str_eq(name, "world1") {
        Some(Key::World1)
    }     else if str_eq(name, "world2") {
        Some(Key::World2)
    }     else if str_eq(name, "escape") || str_eq(name, "esc") {
        Some(Key::Escape)
    }     else if str_eq(name, "enter") || str_eq(name, "return") {
        Some(Key::Enter)
    }     else if str_eq(name, "tab") {
        Some(Key::Tab)
    }     else if str_eq(name, "backspace") {
        Some(Key::Backspace)
    }     else if str_eq(name, "insert") {
        Some(Key::Insert)
    }     else if str_eq(name, "delete") || str_eq(name, "del") {
        Some(Key::Delete)
    }     else if str_eq(name, "right") || str_eq(name, "arrowright") || str_eq(name, "rightarrow") {
        Some(Key::Right)
    }     else if str_eq(name, "left") || str_eq(name, "arrowleft") || str_eq(name, "leftarrow") {
        Some(Key::Left)
    }     else if str_eq(name, "down") || str_eq(name, "arrowdown") || str_eq(name, "downarrow") {
        Some(Key::Down)
    }     else if str_eq(name, "up") || str_eq(name, "arrowup") || str_eq(name, "uparrow") {
        Some(Key::Up)
    }     else if str_eq(name, "pageup") {
        Some(Key::PageUp)
    }     else if str_eq(name, "pagedown") {
        Some(Key::PageDown)
    }     else if str_eq(name, "home") {
        Some(Key::Home)
    }     else if str_eq(name, "end") {
        Some(Key::End)
    }     else if str_eq(name, "capslock") {
        Some(Key::CapsLock)
    }     else if str_eq(name, "scrolllock") {
        Some(Key::ScrollLock)
    }     else if str_eq(name, "numlock") {
        Some(Key::NumLock)
    }     else if str_eq(name, "printscreen") {
        Some(Key::PrintScreen)
    }     else if str_eq(name, "pause") {
        Some(Key::Pause)
    }     else if str_eq(name, "f1") {
        Some(Key::F1)
    }     else if str_eq(name, "f2") {
        Some(Key::F2)
    }     else if str_eq(name, "f3") {
        Some(Key::F3)
    }     else if str_eq(name, "f4") {
        Some(Key::F4)
    }     else if str_eq(name, "f5") {
        Some(Key::F5)
    }     else if str_eq(name, "f6") {
        Some(Key::F6)
    }     else if str_eq(name, "f7") {
        Some(Key::F7)
    }     else if str_eq(name, "f8") {
        Some(Key::F8)
    }     else if str_eq(name, "f9") {
        Some(Key::F9)
    }     else if str_eq(name, "f10") {
        Some(Key::F10)
    }     else if str_eq(name, "f11") {
        Some(Key::F11)
    }     else if str_eq(name, "f12") {
        Some(Key::F12)
    }     else if str_eq(name, "f13") {
        Some(Key::F13)
    }     else if str_eq(name, "f14") {
        Some(Key::F14)
    }     else if str_eq(name, "f15") {
        Some(Key::F15)
    }     else if str_eq(name, "f16") {
        Some(Key::F16)
    }     else if str_eq(name, "f17") {
        Some(Key::F17)
    }     else if str_eq(name, "f18") {
        Some(Key::F18)
    }     else if str_eq(name, "f19") {
        Some(Key::F19)
    }     else if str_eq(name, "f20") {
        Some(Key::F20)
    }     else if str_eq(name, "f21") {
        Some(Key::F21)
    }     else if str_eq(name, "f22") {
        Some(Key::F22)
    }     else if str_eq(name, "f23") {
        Some(Key::F23)
    }     else if str_eq(name, "f24") {
        Some(Key::F24)
    }     else if str_eq(name, "f25") {
        Some(Key::F25)
    }     else if str_eq(name, "kp0") || str_eq(name, "numpad0") {
        Some(Key::Kp0)
    }     else if str_eq(name, "kp1") || str_eq(name, "numpad1") {
        Some(Key::Kp1)
    }     else if str_eq(name, "kp2") || str_eq(name, "numpad2") {
        Some(Key::Kp2)
    }     else if str_eq(name, "kp3") || str_eq(name, "numpad3") {
        Some(Key::Kp3)
    }     else if str_eq(name, "kp4") || str_eq(name, "numpad4") {
        Some(Key::Kp4)
    }     else if str_eq(name, "kp5") || str_eq(name, "numpad5") {
        Some(Key::Kp5)
    }     else if str_eq(name, "kp6") || str_eq(name, "numpad6") {
        Some(Key::Kp6)
    }     else if str_eq(name, "kp7") || str_eq(name, "numpad7") {
        Some(Key::Kp7)
    }     else if str_eq(name, "kp8") || str_eq(name, "numpad8") {
        Some(Key::Kp8)
    }     else if str_eq(name, "kp9") || str_eq(name, "numpad9") {
        Some(Key::Kp9)
    }     else if str_eq(name, "kpdecimal") || str_eq(name, "numpaddecimal") {
        Some(Key::KpDecimal)
    }     else if str_eq(name, "kpdivide") || str_eq(name, "numpaddivide") {
        Some(Key::KpDivide)
    }     else if str_eq(name, "kpmultiply") || str_eq(name, "numpadmultiply") {
        Some(Key::KpMultiply)
    }     else if str_eq(name, "kpsubtract") || str_eq(name, "numpadsubtract") {
        Some(Key::KpSubtract)
    }     else if str_eq(name, "kpadd") || str_eq(name, "numpadadd") {
        Some(Key::KpAdd)
    }     else if str_eq(name, "kpenter") || str_eq(name, "numpadenter") {
        Some(Key::KpEnter)
    }     else if str_eq(name, "kpequal") || str_eq(name, "numpadequal") {
        Some(Key::KpEqual)
    }     else if str_eq(name, "leftshift") || str_eq(name, "lshift") || str_eq(name, "shift") {
        Some(Key::LeftShift)
    }     else if str_eq(name, "leftcontrol") || str_eq(name, "leftctrl") || str_eq(name, "lcontrol") || str_eq(name, "lctrl") || str_eq(name, "control") || str_eq(name, "ctrl") {
        Some(Key::LeftControl)
    }     else if str_eq(name, "leftalt") || str_eq(name, "lalt") || str_eq(name, "alt") || str_eq(name, "option") {
        Some(Key::LeftAlt)
    }     else if str_eq(name, "leftsuper") || str_eq(name, "lsuper") || str_eq(name, "super") || str_eq(name, "meta") || str_eq(name, "cmd") || str_eq(name, "command") || str_eq(name, "win") || str_eq(name, "windows") {
        Some(Key::LeftSuper)
    }     else if str_eq(name, "rightshift") || str_eq(name, "rshift") {
        Some(Key::RightShift)
    }     else if str_eq(name, "rightcontrol") || str_eq(name, "rightctrl") || str_eq(name, "rcontrol") || str_eq(name, "rctrl") {
        Some(Key::RightControl)
    }     else if str_eq(name, "rightalt") || str_eq(name, "ralt") {
        Some(Key::RightAlt)
    }     else if str_eq(name, "rightsuper") || str_eq(name, "rsuper") {
        Some(Key::RightSuper)
    }     else if str_eq(name, "menu") {
        Some(Key::Menu)
    }     else if str_eq(name, "back") {
        Some(Key::Back)
    } else {
        None
    }
}

/// The mouse button that `button` names, whatever its case and its
/// separators.
pub fn parse_mouse_button(button: &str) -> (r: Option<MouseButton>)
    ensures
        r == button_named(normalized(button@)),
{
    let normal = normalize_name(button);
    let name = normal.as_str();
    if str_eq(name, "left") || str_eq(name, "lmb") || str_eq(name, "mouseleft") {
        Some(MouseButton::Left)
    } else if str_eq(name, "right") || str_eq(name, "rmb") || str_eq(name, "mouseright") {
        Some(MouseButton::Right)
    } else if str_eq(name, "middle") || str_eq(name, "mmb") || str_eq(name, "mousemiddle") || str_eq(name, "wheel") {
        Some(MouseButton::Middle)
    } else {
        None
    }
}

/// The name under which `key` is reported to scripts.
pub fn key_code_name(key: Key) -> (r: &'static str)
    ensures
        r@ == name_of_key(key),
{
    match key {
        Key::Space => "Space",
        Key::Apostrophe => "Apostrophe",
        Key::Comma => "Comma",
        Key::Minus => "Minus",
        Key::Period => "Period",
        Key::Slash => "Slash",
        Key::Key0 => "0",
        Key::Key1 => "1",
        Key::Key2 => "2",
        Key::Key3 => "3",
        Key::Key4 => "4",
        Key::Key5 => "5",
        Key::Key6 => "6",
        Key::Key7 => "7",
        Key::Key8 => "8",
        Key::Key9 => "9",
        Key::Semicolon => "Semicolon",
        Key::Equal => "Equal",
        Key::A => "A",
        Key::B => "B",
        Key::C => "C",
        Key::D => "D",
        Key::E => "E",
        Key::F => "F",
        Key::G => "G",
        Key::H => "H",
        Key::I => "I",
        Key::J => "J",
        Key::K => "K",
        Key::L => "L",
        Key::M => "M",
        Key::N => "N",
        Key::O => "O",
        Key::P => "P",
        Key::Q => "Q",
        Key::R => "R",
        Key::S => "S",
        Key::T => "T",
        Key::U => "U",
        Key::V => "V",
        Key::W => "W",
        Key::X => "X",
        Key::Y => "Y",
        Key::Z => "Z",
        Key::LeftBracket => "LeftBracket",
        Key::Backslash => "Backslash",
        Key::RightBracket => "RightBracket",
        Key::GraveAccent => "GraveAccent",
        Key::World1 => "World1",
        Key::World2 => "World2",
        Key::Escape => "Escape",
        Key::Enter => "Enter",
        Key::Tab => "Tab",
        Key::Backspace => "Backspace",
        Key::Insert => "Insert",
        Key::Delete => "Delete",
        Key::Right => "Right",
        Key::Left => "Left",
        Key::Down => "Down",
        Key::Up => "Up",
        Key::PageUp => "PageUp",
        Key::PageDown => "PageDown",
        Key::Home => "Home",
        Key::End => "End",
        Key::CapsLock => "CapsLock",
        Key::ScrollLock => "ScrollLock",
        Key::NumLock => "NumLock",
        Key::PrintScreen => "PrintScreen",
        Key::Pause => "Pause",
        Key::F1 => "F1",
        Key::F2 => "F2",
        Key::F3 => "F3",
        Key::F4 => "F4",
        Key::F5 => "F5",
        Key::F6 => "F6",
        Key::F7 => "F7",
        Key::F8 => "F8",
        Key::F9 => "F9",
        Key::F10 => "F10",
        Key::F11 => "F11",
        Key::F12 => "F12",
        Key::F13 => "F13",
        Key::F14 => "F14",
        Key::F15 => "F15",
        Key::F16 => "F16",
        Key::F17 => "F17",
        Key::F18 => "F18",
        Key::F19 => "F19",
        Key::F20 => "F20",
        Key::F21 => "F21",
        Key::F22 => "F22",
        Key::F23 => "F23",
        Key::F24 => "F24",
        Key::F25 => "F25",
        Key::Kp0 => "Kp0",
        Key::Kp1 => "Kp1",
        Key::Kp2 => "Kp2",
        Key::Kp3 => "Kp3",
        Key::Kp4 => "Kp4",
        Key::Kp5 => "Kp5",
        Key::Kp6 => "Kp6",
        Key::Kp7 => "Kp7",
        Key::Kp8 => "Kp8",
        Key::Kp9 => "Kp9",
        Key::KpDecimal => "KpDecimal",
        Key::KpDivide => "KpDivide",
        Key::KpMultiply => "KpMultiply",
        Key::KpSubtract => "KpSubtract",
        Key::KpAdd => "KpAdd",
        Key::KpEnter => "KpEnter",
        Key::KpEqual => "KpEqual",
        Key::LeftShift => "LeftShift",
        Key::LeftControl => "LeftControl",
        Key::LeftAlt => "LeftAlt",
        Key::LeftSuper => "LeftSuper",
        Key::RightShift => "RightShift",
        Key::RightControl => "RightControl",
        Key::RightAlt => "RightAlt",
        Key::RightSuper => "RightSuper",
        Key::Menu => "Menu",
        Key::Back => "Back",
        Key::Unknown => "Unknown",
    }
}

} // verus!
