//! Identity of keyboard keys and pointer buttons, and the virtual-key table
//! used when a key is injected through a low-level backend.

use vstd::prelude::*;

verus! {

/// A keyboard key, by position. `Unknown` carries the platform's raw code for
/// keys that have no name here, so that two distinct unnamed keys stay
/// distinguishable.
#[derive(Debug, Clone, Copy, PartialEq, Eq, Hash, Structural)]
pub enum KeyCode {
    Alt,
    AltGr,
    Backspace,
    CapsLock,
    ControlLeft,
    ControlRight,
    Delete,
    DownArrow,
    End,
    Escape,
    F1,
    F2,
    F3,
    F4,
    F5,
    F6,
    F7,
    F8,
    F9,
    F10,
    F11,
    F12,
    Home,
    LeftArrow,
    MetaLeft,
    MetaRight,
    PageDown,
    PageUp,
    Return,
    RightArrow,
    ShiftLeft,
    ShiftRight,
    Space,
    Tab,
    UpArrow,
    PrintScreen,
    ScrollLock,
    Pause,
    NumLock,
    BackQuote,
    Num1,
    Num2,
    Num3,
    Num4,
    Num5,
    Num6,
    Num7,
    Num8,
    Num9,
    Num0,
    Minus,
    Equal,
    KeyQ,
    KeyW,
    KeyE,
    KeyR,
    KeyT,
    KeyY,
    KeyU,
    KeyI,
    KeyO,
    KeyP,
    LeftBracket,
    RightBracket,
    KeyA,
    KeyS,
    KeyD,
    KeyF,
    KeyG,
    KeyH,
    KeyJ,
    KeyK,
    KeyL,
    SemiColon,
    Quote,
    BackSlash,
    IntlBackslash,
    KeyZ,
    KeyX,
    KeyC,
    KeyV,
    KeyB,
    KeyN,
    KeyM,
    Comma,
    Dot,
    Slash,
    Insert,
    KpReturn,
    KpMinus,
    KpPlus,
    KpMultiply,
    KpDivide,
    Kp0,
    Kp1,
    Kp2,
    Kp3,
    Kp4,
    Kp5,
    Kp6,
    Kp7,
    Kp8,
    Kp9,
    KpDelete,
    Function,
    Unknown(u32),
}

/// A pointer button. `Unknown` carries the platform's raw code.
#[derive(Debug, Clone, Copy, PartialEq, Eq, Hash, Structural)]
pub enum PointerButton {
    Left,
    Right,
    Middle,
    Unknown(u8),
}

/// One source of input: either a keyboard key or a pointer button. Used as an
/// equality key throughout the engine.
#[derive(Debug, Clone, Copy, PartialEq, Eq, Hash, Structural)]
pub enum ActionKey {
    Keyboard(KeyCode),
    Mouse(PointerButton),
}

/// The Windows virtual-key code of a key, or 0 for keys the injection backend
/// does not support.
pub open spec fn vk_of(key: KeyCode) -> u16 {
    match key {
        KeyCode::KeyA => 0x41,
        KeyCode::KeyB => 0x42,
        KeyCode::KeyC => 0x43,
        KeyCode::KeyD => 0x44,
        KeyCode::KeyE => 0x45,
        KeyCode::KeyF => 0x46,
        KeyCode::KeyG => 0x47,
        KeyCode::KeyH => 0x48,
        KeyCode::KeyI => 0x49,
        KeyCode::KeyJ => 0x4A,
        KeyCode::KeyK => 0x4B,
        KeyCode::KeyL => 0x4C,
        KeyCode::KeyM => 0x4D,
        KeyCode::KeyN => 0x4E,
        KeyCode::KeyO => 0x4F,
        KeyCode::KeyP => 0x50,
        KeyCode::KeyQ => 0x51,
        KeyCode::KeyR => 0x52,
        KeyCode::KeyS => 0x53,
        KeyCode::KeyT => 0x54,
        KeyCode::KeyU => 0x55,
        KeyCode::KeyV => 0x56,
        KeyCode::KeyW => 0x57,
        KeyCode::KeyX => 0x58,
        KeyCode::KeyY => 0x59,
        KeyCode::KeyZ => 0x5A,
        KeyCode::Num0 => 0x30,
        KeyCode::Num1 => 0x31,
        KeyCode::Num2 => 0x32,
        KeyCode::Num3 => 0x33,
        KeyCode::Num4 => 0x34,
        KeyCode::Num5 => 0x35,
        KeyCode::Num6 => 0x36,
        KeyCode::Num7 => 0x37,
        KeyCode::Num8 => 0x38,
        KeyCode::Num9 => 0x39,
        KeyCode::Tab => 0x09,
        KeyCode::Escape => 0x1B,
        KeyCode::ShiftLeft => 0x10,
        KeyCode::ShiftRight => 0x10,
        KeyCode::ControlLeft => 0x11,
        KeyCode::ControlRight => 0x11,
        KeyCode::Alt => 0x12,
        KeyCode::AltGr => 0x12,
        KeyCode::MetaLeft => 0x5B,
        KeyCode::MetaRight => 0x5B,
        KeyCode::Space => 0x20,
        KeyCode::Return => 0x0D,
        KeyCode::Backspace => 0x08,
        KeyCode::CapsLock => 0x14,
        KeyCode::F1 => 0x70,
        KeyCode::F2 => 0x71,
        KeyCode::F3 => 0x72,
        KeyCode::F4 => 0x73,
        KeyCode::F5 => 0x74,
        KeyCode::F6 => 0x75,
        KeyCode::F7 => 0x76,
        KeyCode::F8 => 0x77,
        KeyCode::F9 => 0x78,
        KeyCode::F10 => 0x79,
        KeyCode::F11 => 0x7A,
        KeyCode::F12 => 0x7B,
        KeyCode::UpArrow => 0x26,
        KeyCode::DownArrow => 0x28,
        KeyCode::LeftArrow => 0x25,
        KeyCode::RightArrow => 0x27,
        _ => 0,
    }
}

/// Maps a key to its Windows virtual-key code; unsupported keys map to 0.
pub fn key_to_vk(key: &KeyCode) -> (vk: u16)
    ensures
        vk == vk_of(*key),
{
    match *key {
        KeyCode::KeyA => 0x41,
        KeyCode::KeyB => 0x42,
        KeyCode::KeyC => 0x43,
        KeyCode::KeyD => 0x44,
        KeyCode::KeyE => 0x45,
        KeyCode::KeyF => 0x46,
        KeyCode::KeyG => 0x47,
        KeyCode::KeyH => 0x48,
        KeyCode::KeyI => 0x49,
        KeyCode::KeyJ => 0x4A,
        KeyCode::KeyK => 0x4B,
        KeyCode::KeyL => 0x4C,
        KeyCode::KeyM => 0x4D,
        KeyCode::KeyN => 0x4E,
        KeyCode::KeyO => 0x4F,
        KeyCode::KeyP => 0x50,
        KeyCode::KeyQ => 0x51,
        KeyCode::KeyR => 0x52,
        KeyCode::KeyS => 0x53,
        KeyCode::KeyT => 0x54,
        KeyCode::KeyU => 0x55,
        KeyCode::KeyV => 0x56,
        KeyCode::KeyW => 0x57,
        KeyCode::KeyX => 0x58,
        KeyCode::KeyY => 0x59,
        KeyCode::KeyZ => 0x5A,
        KeyCode::Num0 => 0x30,
        KeyCode::Num1 => 0x31,
        KeyCode::Num2 => 0x32,
        KeyCode::Num3 => 0x33,
        KeyCode::Num4 => 0x34,
        KeyCode::Num5 => 0x35,
        KeyCode::Num6 => 0x36,
        KeyCode::Num7 => 0x37,
        KeyCode::Num8 => 0x38,
        KeyCode::Num9 => 0x39,
        KeyCode::Tab => 0x09,
        KeyCode::Escape => 0x1B,
        KeyCode::ShiftLeft | KeyCode::ShiftRight => 0x10,
        KeyCode::ControlLeft | KeyCode::ControlRight => 0x11,
        KeyCode::Alt | KeyCode::AltGr => 0x12,
        KeyCode::MetaLeft | KeyCode::MetaRight => 0x5B,
        KeyCode::Space => 0x20,
        KeyCode::Return => 0x0D,
        KeyCode::Backspace => 0x08,
        KeyCode::CapsLock => 0x14,
        KeyCode::F1 => 0x70,
        KeyCode::F2 => 0x71,
        KeyCode::F3 => 0x72,
        KeyCode::F4 => 0x73,
        KeyCode::F5 => 0x74,
        KeyCode::F6 => 0x75,
        KeyCode::F7 => 0x76,
        KeyCode::F8 => 0x77,
        KeyCode::F9 => 0x78,
        KeyCode::F10 => 0x79,
        KeyCode::F11 => 0x7A,
        KeyCode::F12 => 0x7B,
        KeyCode::UpArrow => 0x26,
        KeyCode::DownArrow => 0x28,
        KeyCode::LeftArrow => 0x25,
        KeyCode::RightArrow => 0x27,
        _ => 0,
    }
}

} // verus!
