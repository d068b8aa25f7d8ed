use vstd::prelude::*;

verus! {

/// A key of the keyboard as the windowing layer reports it.
///
/// Each key carries a fixed 16-bit code (X11 keysym based, with `0x01` in the
/// high byte for keys that have no keysym); `key_code` gives it. The settings
/// file stores hotkeys by that code.
#[derive(Clone, Copy, Debug, PartialEq, Eq, Structural, Hash)]
pub enum Key {
    Space,
    Apostrophe,
    Comma,
    Minus,
    Period,
    Slash,
    Key0,
    Key1,
    Key2,
    Key3,
    Key4,
    Key5,
    Key6,
    Key7,
    Key8,
    Key9,
    Semicolon,
    Equal,
    A,
    B,
    C,
    D,
    E,
    F,
    G,
    H,
    I,
    J,
    K,
    L,
    M,
    N,
    O,
    P,
    Q,
    R,
    S,
    T,
    U,
    V,
    W,
    X,
    Y,
    Z,
    LeftBracket,
    Backslash,
    RightBracket,
    GraveAccent,
    World1,
    World2,
    Escape,
    Enter,
    Tab,
    Backspace,
    Insert,
    Delete,
    Right,
    Left,
    Down,
    Up,
    PageUp,
    PageDown,
    Home,
    End,
    CapsLock,
    ScrollLock,
    NumLock,
    PrintScreen,
    Pause,
    F1,
    F2,
    F3,
    F4,
    F5,
    F6,
    F7,
    F8,
    F9,
    F10,
    F11,
    F12,
    F13,
    F14,
    F15,
    F16,
    F17,
    F18,
    F19,
    F20,
    F21,
    F22,
    F23,
    F24,
    F25,
    Kp0,
    Kp1,
    Kp2,
    Kp3,
    Kp4,
    Kp5,
    Kp6,
    Kp7,
    Kp8,
    Kp9,
    KpDecimal,
    KpDivide,
    KpMultiply,
    KpSubtract,
    KpAdd,
    KpEnter,
    KpEqual,
    LeftShift,
    LeftControl,
    LeftAlt,
    LeftSuper,
    RightShift,
    RightControl,
    RightAlt,
    RightSuper,
    Menu,
    Back,
    Unknown,
}

/// The 16-bit code of a key.
pub open spec fn key_code(k: Key) -> u16 {
    match k {
        Key::Space => 0x0020,
        Key::Apostrophe => 0x0027,
        Key::Comma => 0x002c,
        Key::Minus => 0x002d,
        Key::Period => 0x002e,
        Key::Slash => 0x002f,
        Key::Key0 => 0x0030,
        Key::Key1 => 0x0031,
        Key::Key2 => 0x0032,
        Key::Key3 => 0x0033,
        Key::Key4 => 0x0034,
        Key::Key5 => 0x0035,
        Key::Key6 => 0x0036,
        Key::Key7 => 0x0037,
        Key::Key8 => 0x0038,
        Key::Key9 => 0x0039,
        Key::Semicolon => 0x003b,
        Key::Equal => 0x003d,
        Key::A => 0x0041,
        Key::B => 0x0042,
        Key::C => 0x0043,
        Key::D => 0x0044,
        Key::E => 0x0045,
        Key::F => 0x0046,
        Key::G => 0x0047,
        Key::H => 0x0048,
        Key::I => 0x0049,
        Key::J => 0x004a,
        Key::K => 0x004b,
        Key::L => 0x004c,
        Key::M => 0x004d,
        Key::N => 0x004e,
        Key::O => 0x004f,
        Key::P => 0x0050,
        Key::Q => 0x0051,
        Key::R => 0x0052,
        Key::S => 0x0053,
        Key::T => 0x0054,
        Key::U => 0x0055,
        Key::V => 0x0056,
        Key::W => 0x0057,
        Key::X => 0x0058,
        Key::Y => 0x0059,
        Key::Z => 0x005a,
        Key::LeftBracket => 0x005b,
        Key::Backslash => 0x005c,
        Key::RightBracket => 0x005d,
        Key::GraveAccent => 0x0060,
        Key::World1 => 0x0100,
        Key::World2 => 0x0101,
        Key::Escape => 0xff1b,
        Key::Enter => 0xff0d,
        Key::Tab => 0xff09,
        Key::Backspace => 0xff08,
        Key::Insert => 0xff63,
        Key::Delete => 0xffff,
        Key::Right => 0xff53,
        Key::Left => 0xff51,
        Key::Down => 0xff54,
        Key::Up => 0xff52,
        Key::PageUp => 0xff55,
        Key::PageDown => 0xff56,
        Key::Home => 0xff50,
        Key::End => 0xff57,
        Key::CapsLock => 0xffe5,
        Key::ScrollLock => 0xff14,
        Key::NumLock => 0xff7f,
        Key::PrintScreen => 0xfd1d,
        Key::Pause => 0xff13,
        Key::F1 => 0xffbe,
        Key::F2 => 0xffbf,
        Key::F3 => 0xffc0,
        Key::F4 => 0xffc1,
        Key::F5 => 0xffc2,
        Key::F6 => 0xffc3,
        Key::F7 => 0xffc4,
        Key::F8 => 0xffc5,
        Key::F9 => 0xffc6,
        Key::F10 => 0xffc7,
        Key::F11 => 0xffc8,
        Key::F12 => 0xffc9,
        Key::F13 => 0xffca,
        Key::F14 => 0xffcb,
        Key::F15 => 0xffcc,
        Key::F16 => 0xffcd,
        Key::F17 => 0xffce,
        Key::F18 => 0xffcf,
        Key::F19 => 0xffd0,
        Key::F20 => 0xffd1,
        Key::F21 => 0xffd2,
        Key::F22 => 0xffd3,
        Key::F23 => 0xffd4,
        Key::F24 => 0xffd5,
        Key::F25 => 0xffd6,
        Key::Kp0 => 0xffb0,
        Key::Kp1 => 0xffb1,
        Key::Kp2 => 0xffb2,
        Key::Kp3 => 0xffb3,
        Key::Kp4 => 0xffb4,
        Key::Kp5 => 0xffb5,
        Key::Kp6 => 0xffb6,
        Key::Kp7 => 0xffb7,
        Key::Kp8 => 0xffb8,
        Key::Kp9 => 0xffb9,
        Key::KpDecimal => 0xffae,
        Key::KpDivide => 0xffaf,
        Key::KpMultiply => 0xffaa,
        Key::KpSubtract => 0xffad,
        Key::KpAdd => 0xffab,
        Key::KpEnter => 0xff8d,
        Key::KpEqual => 0xffbd,
        Key::LeftShift => 0xffe1,
        Key::LeftControl => 0xffe3,
        Key::LeftAlt => 0xffe9,
        Key::LeftSuper => 0xffeb,
        Key::RightShift => 0xffe2,
        Key::RightControl => 0xffe4,
        Key::RightAlt => 0xffea,
        Key::RightSuper => 0xffec,
        Key::Menu => 0xff67,
        Key::Back => 0xff04,
        Key::Unknown => 0x01ff,
    }
}

/// The key whose code is `c`, if any key has it.
spec fn key_with_code(c: u16) -> Option<Key> {
    match c {
        0x0020 => Some(Key::Space),
        0x0027 => Some(Key::Apostrophe),
        0x002c => Some(Key::Comma),
        0x002d => Some(Key::Minus),
        0x002e => Some(Key::Period),
        0x002f => Some(Key::Slash),
        0x0030 => Some(Key::Key0),
        0x0031 => Some(Key::Key1),
        0x0032 => Some(Key::Key2),
        0x0033 => Some(Key::Key3),
        0x0034 => Some(Key::Key4),
        0x0035 => Some(Key::Key5),
        0x0036 => Some(Key::Key6),
        0x0037 => Some(Key::Key7),
        0x0038 => Some(Key::Key8),
        0x0039 => Some(Key::Key9),
        0x003b => Some(Key::Semicolon),
        0x003d => Some(Key::Equal),
        0x0041 => Some(Key::A),
        0x0042 => Some(Key::B),
        0x0043 => Some(Key::C),
        0x0044 => Some(Key::D),
        0x0045 => Some(Key::E),
        0x0046 => Some(Key::F),
        0x0047 => Some(Key::G),
        0x0048 => Some(Key::H),
        0x0049 => Some(Key::I),
        0x004a => Some(Key::J),
        0x004b => Some(Key::K),
        0x004c => Some(Key::L),
        0x004d => Some(Key::M),
        0x004e => Some(Key::N),
        0x004f => Some(Key::O),
        0x0050 => Some(Key::P),
        0x0051 => Some(Key::Q),
        0x0052 => Some(Key::R),
        0x0053 => Some(Key::S),
        0x0054 => Some(Key::T),
        0x0055 => Some(Key::U),
        0x0056 => Some(Key::V),
        0x0057 => Some(Key::W),
        0x0058 => Some(Key::X),
        0x0059 => Some(Key::Y),
        0x005a => Some(Key::Z),
        0x005b => Some(Key::LeftBracket),
        0x005c => Some(Key::Backslash),
        0x005d => Some(Key::RightBracket),
        0x0060 => Some(Key::GraveAccent),
        0x0100 => Some(Key::World1),
        0x0101 => Some(Key::World2),
        0xff1b => Some(Key::Escape),
        0xff0d => Some(Key::Enter),
        0xff09 => Some(Key::Tab),
        0xff08 => Some(Key::Backspace),
        0xff63 => Some(Key::Insert),
        0xffff => Some(Key::Delete),
        0xff53 => Some(Key::Right),
        0xff51 => Some(Key::Left),
        0xff54 => Some(Key::Down),
        0xff52 => Some(Key::Up),
        0xff55 => Some(Key::PageUp),
        0xff56 => Some(Key::PageDown),
        0xff50 => Some(Key::Home),
        0xff57 => Some(Key::End),
        0xffe5 => Some(Key::CapsLock),
        0xff14 => Some(Key::ScrollLock),
        0xff7f => Some(Key::NumLock),
        0xfd1d => Some(Key::PrintScreen),
        0xff13 => Some(Key::Pause),
        0xffbe => Some(Key::F1),
        0xffbf => Some(Key::F2),
        0xffc0 => Some(Key::F3),
        0xffc1 => Some(Key::F4),
        0xffc2 => Some(Key::F5),
        0xffc3 => Some(Key::F6),
        0xffc4 => Some(Key::F7),
        0xffc5 => Some(Key::F8),
        0xffc6 => Some(Key::F9),
        0xffc7 => Some(Key::F10),
        0xffc8 => Some(Key::F11),
        0xffc9 => Some(Key::F12),
        0xffca => Some(Key::F13),
        0xffcb => Some(Key::F14),
        0xffcc => Some(Key::F15),
        0xffcd => Some(Key::F16),
        0xffce => Some(Key::F17),
        0xffcf => Some(Key::F18),
        0xffd0 => Some(Key::F19),
        0xffd1 => Some(Key::F20),
        0xffd2 => Some(Key::F21),
        0xffd3 => Some(Key::F22),
        0xffd4 => Some(Key::F23),
        0xffd5 => Some(Key::F24),
        0xffd6 => Some(Key::F25),
        0xffb0 => Some(Key::Kp0),
        0xffb1 => Some(Key::Kp1),
        0xffb2 => Some(Key::Kp2),
        0xffb3 => Some(Key::Kp3),
        0xffb4 => Some(Key::Kp4),
        0xffb5 => Some(Key::Kp5),
        0xffb6 => Some(Key::Kp6),
        0xffb7 => Some(Key::Kp7),
        0xffb8 => Some(Key::Kp8),
        0xffb9 => Some(Key::Kp9),
        0xffae => Some(Key::KpDecimal),
        0xffaf => Some(Key::KpDivide),
        0xffaa => Some(Key::KpMultiply),
        0xffad => Some(Key::KpSubtract),
        0xffab => Some(Key::KpAdd),
        0xff8d => Some(Key::KpEnter),
        0xffbd => Some(Key::KpEqual),
        0xffe1 => Some(Key::LeftShift),
        0xffe3 => Some(Key::LeftControl),
        0xffe9 => Some(Key::LeftAlt),
        0xffeb => Some(Key::LeftSuper),
        0xffe2 => Some(Key::RightShift),
        0xffe4 => Some(Key::RightControl),
        0xffea => Some(Key::RightAlt),
        0xffec => Some(Key::RightSuper),
        0xff67 => Some(Key::Menu),
        0xff04 => Some(Key::Back),
        0x01ff => Some(Key::Unknown),
        _ => None,
    }
}

/// No two keys share a code.
pub proof fn lemma_key_code_injective(a: Key, b: Key)
    ensures
        key_code(a) == key_code(b) ==> a == b,
{
    assert(key_with_code(key_code(a)) == Some(a));
    assert(key_with_code(key_code(b)) == Some(b));
}

impl Key {
    /// The code that identifies this key in the settings file.
    pub fn code(&self) -> (c: u16)
        ensures
            c == key_code(*self),
    {
        match self {
            Key::Space => 0x0020,
            Key::Apostrophe => 0x0027,
            Key::Comma => 0x002c,
            Key::Minus => 0x002d,
            Key::Period => 0x002e,
            Key::Slash => 0x002f,
            Key::Key0 => 0x0030,
            Key::Key1 => 0x0031,
            Key::Key2 => 0x0032,
            Key::Key3 => 0x0033,
            Key::Key4 => 0x0034,
            Key::Key5 => 0x0035,
            Key::Key6 => 0x0036,
            Key::Key7 => 0x0037,
            Key::Key8 => 0x0038,
            Key::Key9 => 0x0039,
            Key::Semicolon => 0x003b,
            Key::Equal => 0x003d,
            Key::A => 0x0041,
            Key::B => 0x0042,
            Key::C => 0x0043,
            Key::D => 0x0044,
            Key::E => 0x0045,
            Key::F => 0x0046,
            Key::G => 0x0047,
            Key::H => 0x0048,
            Key::I => 0x0049,
            Key::J => 0x004a,
            Key::K => 0x004b,
            Key::L => 0x004c,
            Key::M => 0x004d,
            Key::N => 0x004e,
            Key::O => 0x004f,
            Key::P => 0x0050,
            Key::Q => 0x0051,
            Key::R => 0x0052,
            Key::S => 0x0053,
            Key::T => 0x0054,
            Key::U => 0x0055,
            Key::V => 0x0056,
            Key::W => 0x0057,
            Key::X => 0x0058,
            Key::Y => 0x0059,
            Key::Z => 0x005a,
            Key::LeftBracket => 0x005b,
            Key::Backslash => 0x005c,
            Key::RightBracket => 0x005d,
            Key::GraveAccent => 0x0060,
            Key::World1 => 0x0100,
            Key::World2 => 0x0101,
            Key::Escape => 0xff1b,
            Key::Enter => 0xff0d,
            Key::Tab => 0xff09,
            Key::Backspace => 0xff08,
            Key::Insert => 0xff63,
            Key::Delete => 0xffff,
            Key::Right => 0xff53,
            Key::Left => 0xff51,
            Key::Down => 0xff54,
            Key::Up => 0xff52,
            Key::PageUp => 0xff55,
            Key::PageDown => 0xff56,
            Key::Home => 0xff50,
            Key::End => 0xff57,
            Key::CapsLock => 0xffe5,
            Key::ScrollLock => 0xff14,
            Key::NumLock => 0xff7f,
            Key::PrintScreen => 0xfd1d,
            Key::Pause => 0xff13,
            Key::F1 => 0xffbe,
            Key::F2 => 0xffbf,
            Key::F3 => 0xffc0,
            Key::F4 => 0xffc1,
            Key::F5 => 0xffc2,
            Key::F6 => 0xffc3,
            Key::F7 => 0xffc4,
            Key::F8 => 0xffc5,
            Key::F9 => 0xffc6,
            Key::F10 => 0xffc7,
            Key::F11 => 0xffc8,
            Key::F12 => 0xffc9,
            Key::F13 => 0xffca,
            Key::F14 => 0xffcb,
            Key::F15 => 0xffcc,
            Key::F16 => 0xffcd,
            Key::F17 => 0xffce,
            Key::F18 => 0xffcf,
            Key::F19 => 0xffd0,
            Key::F20 => 0xffd1,
            Key::F21 => 0xffd2,
            Key::F22 => 0xffd3,
            Key::F23 => 0xffd4,
            Key::F24 => 0xffd5,
            Key::F25 => 0xffd6,
            Key::Kp0 => 0xffb0,
            Key::Kp1 => 0xffb1,
            Key::Kp2 => 0xffb2,
            Key::Kp3 => 0xffb3,
            Key::Kp4 => 0xffb4,
            Key::Kp5 => 0xffb5,
            Key::Kp6 => 0xffb6,
            Key::Kp7 => 0xffb7,
            Key::Kp8 => 0xffb8,
            Key::Kp9 => 0xffb9,
            Key::KpDecimal => 0xffae,
            Key::KpDivide => 0xffaf,
            Key::KpMultiply => 0xffaa,
            Key::KpSubtract => 0xffad,
            Key::KpAdd => 0xffab,
            Key::KpEnter => 0xff8d,
            Key::KpEqual => 0xffbd,
            Key::LeftShift => 0xffe1,
            Key::LeftControl => 0xffe3,
            Key::LeftAlt => 0xffe9,
            Key::LeftSuper => 0xffeb,
            Key::RightShift => 0xffe2,
            Key::RightControl => 0xffe4,
            Key::RightAlt => 0xffea,
            Key::RightSuper => 0xffec,
            Key::Menu => 0xff67,
            Key::Back => 0xff04,
            Key::Unknown => 0x01ff,
        }
    }

    /// The key with code `c`, or `None` when no key has that code.
    pub fn from_code(c: u16) -> (r: Option<Key>)
        ensures
            r matches Some(k) ==> key_code(k) == c,
            r is None <==> (forall|k: Key| key_code(k) != c),
    {
        let r: Option<Key> = match c {
            0x0020 => Some(Key::Space),
            0x0027 => Some(Key::Apostrophe),
            0x002c => Some(Key::Comma),
            0x002d => Some(Key::Minus),
            0x002e => Some(Key::Period),
            0x002f => Some(Key::Slash),
            0x0030 => Some(Key::Key0),
            0x0031 => Some(Key::Key1),
            0x0032 => Some(Key::Key2),
            0x0033 => Some(Key::Key3),
            0x0034 => Some(Key::Key4),
            0x0035 => Some(Key::Key5),
            0x0036 => Some(Key::Key6),
            0x0037 => Some(Key::Key7),
            0x0038 => Some(Key::Key8),
            0x0039 => Some(Key::Key9),
            0x003b => Some(Key::Semicolon),
            0x003d => Some(Key::Equal),
            0x0041 => Some(Key::A),
            0x0042 => Some(Key::B),
            0x0043 => Some(Key::C),
            0x0044 => Some(Key::D),
            0x0045 => Some(Key::E),
            0x0046 => Some(Key::F),
            0x0047 => Some(Key::G),
            0x0048 => Some(Key::H),
            0x0049 => Some(Key::I),
            0x004a => Some(Key::J),
            0x004b => Some(Key::K),
            0x004c => Some(Key::L),
            0x004d => Some(Key::M),
            0x004e => Some(Key::N),
            0x004f => Some(Key::O),
            0x0050 => Some(Key::P),
            0x0051 => Some(Key::Q),
            0x0052 => Some(Key::R),
            0x0053 => Some(Key::S),
            0x0054 => Some(Key::T),
            0x0055 => Some(Key::U),
            0x0056 => Some(Key::V),
            0x0057 => Some(Key::W),
            0x0058 => Some(Key::X),
            0x0059 => Some(Key::Y),
            0x005a => Some(Key::Z),
            0x005b => Some(Key::LeftBracket),
            0x005c => Some(Key::Backslash),
            0x005d => Some(Key::RightBracket),
            0x0060 => Some(Key::GraveAccent),
            0x0100 => Some(Key::World1),
            0x0101 => Some(Key::World2),
            0xff1b => Some(Key::Escape),
            0xff0d => Some(Key::Enter),
            0xff09 => Some(Key::Tab),
            0xff08 => Some(Key::Backspace),
            0xff63 => Some(Key::Insert),
            0xffff => Some(Key::Delete),
            0xff53 => Some(Key::Right),
            0xff51 => Some(Key::Left),
            0xff54 => Some(Key::Down),
            0xff52 => Some(Key::Up),
            0xff55 => Some(Key::PageUp),
            0xff56 => Some(Key::PageDown),
            0xff50 => Some(Key::Home),
            0xff57 => Some(Key::End),
            0xffe5 => Some(Key::CapsLock),
            0xff14 => Some(Key::ScrollLock),
            0xff7f => Some(Key::NumLock),
            0xfd1d => Some(Key::PrintScreen),
            0xff13 => Some(Key::Pause),
            0xffbe => Some(Key::F1),
            0xffbf => Some(Key::F2),
            0xffc0 => Some(Key::F3),
            0xffc1 => Some(Key::F4),
            0xffc2 => Some(Key::F5),
            0xffc3 => Some(Key::F6),
            0xffc4 => Some(Key::F7),
            0xffc5 => Some(Key::F8),
            0xffc6 => Some(Key::F9),
            0xffc7 => Some(Key::F10),
            0xffc8 => Some(Key::F11),
            0xffc9 => Some(Key::F12),
            0xffca => Some(Key::F13),
            0xffcb => Some(Key::F14),
            0xffcc => Some(Key::F15),
            0xffcd => Some(Key::F16),
            0xffce => Some(Key::F17),
            0xffcf => Some(Key::F18),
            0xffd0 => Some(Key::F19),
            0xffd1 => Some(Key::F20),
            0xffd2 => Some(Key::F21),
            0xffd3 => Some(Key::F22),
            0xffd4 => Some(Key::F23),
            0xffd5 => Some(Key::F24),
            0xffd6 => Some(Key::F25),
            0xffb0 => Some(Key::Kp0),
            0xffb1 => Some(Key::Kp1),
            0xffb2 => Some(Key::Kp2),
            0xffb3 => Some(Key::Kp3),
            0xffb4 => Some(Key::Kp4),
            0xffb5 => Some(Key::Kp5),
            0xffb6 => Some(Key::Kp6),
            0xffb7 => Some(Key::Kp7),
            0xffb8 => Some(Key::Kp8),
            0xffb9 => Some(Key::Kp9),
            0xffae => Some(Key::KpDecimal),
            0xffaf => Some(Key::KpDivide),
            0xffaa => Some(Key::KpMultiply),
            0xffad => Some(Key::KpSubtract),
            0xffab => Some(Key::KpAdd),
            0xff8d => Some(Key::KpEnter),
            0xffbd => Some(Key::KpEqual),
            0xffe1 => Some(Key::LeftShift),
            0xffe3 => Some(Key::LeftControl),
            0xffe9 => Some(Key::LeftAlt),
            0xffeb => Some(Key::LeftSuper),
            0xffe2 => Some(Key::RightShift),
            0xffe4 => Some(Key::RightControl),
            0xffea => Some(Key::RightAlt),
            0xffec => Some(Key::RightSuper),
            0xff67 => Some(Key::Menu),
            0xff04 => Some(Key::Back),
            0x01ff => Some(Key::Unknown),
            _ => None,
        };
        proof {
            assert(r == key_with_code(c));
            assert forall|k: Key| key_code(k) == c implies r == Some(k) by {
                assert(key_with_code(key_code(k)) == Some(k));
            }
        }
        r
    }

    /// Whether this is one of the shift, control or alt keys, which cannot be
    /// bound as a hotkey on their own.
    pub fn is_modifier(&self) -> (r: bool)
        ensures
            r <==> is_modifier_key(*self),
    {
        match self {
            Key::LeftControl | Key::RightControl | Key::LeftAlt | Key::RightAlt
            | Key::LeftShift | Key::RightShift => true,
            _ => false,
        }
    }
}

/// The shift, control and alt keys, left and right.
pub open spec fn is_modifier_key(k: Key) -> bool {
    k == Key::LeftControl || k == Key::RightControl || k == Key::LeftAlt || k == Key::RightAlt
        || k == Key::LeftShift || k == Key::RightShift
}

/// A physical key position as the global hotkey service names it (W3C UI
/// Events `code` values).
#[derive(Clone, Copy, Debug, PartialEq, Eq, Structural, Hash)]
pub enum HotkeyCode {
    Space,
    Quote,
    Comma,
    Minus,
    Period,
    Slash,
    Digit0,
    Digit1,
    Digit2,
    Digit3,
    Digit4,
    Digit5,
    Digit6,
    Digit7,
    Digit8,
    Digit9,
    Semicolon,
    Equal,
    KeyA,
    KeyB,
    KeyC,
    KeyD,
    KeyE,
    KeyF,
    KeyG,
    KeyH,
    KeyI,
    KeyJ,
    KeyK,
    KeyL,
    KeyM,
    KeyN,
    KeyO,
    KeyP,
    KeyQ,
    KeyR,
    KeyS,
    KeyT,
    KeyU,
    KeyV,
    KeyW,
    KeyX,
    KeyY,
    KeyZ,
    BracketLeft,
    Backslash,
    BracketRight,
    Backquote,
    Unidentified,
    Escape,
    Enter,
    Tab,
    Backspace,
    Insert,
    Delete,
    ArrowRight,
    ArrowLeft,
    ArrowDown,
    ArrowUp,
    PageUp,
    PageDown,
    Home,
    End,
    CapsLock,
    ScrollLock,
    NumLock,
    PrintScreen,
    Pause,
    F1,
    F2,
    F3,
    F4,
    F5,
    F6,
    F7,
    F8,
    F9,
    F10,
    F11,
    F12,
    F13,
    F14,
    F15,
    F16,
    F17,
    F18,
    F19,
    F20,
    F21,
    F22,
    F23,
    F24,
    F25,
    Numpad0,
    Numpad1,
    Numpad2,
    Numpad3,
    Numpad4,
    Numpad5,
    Numpad6,
    Numpad7,
    Numpad8,
    Numpad9,
    NumpadDecimal,
    NumpadDivide,
    NumpadMultiply,
    NumpadSubtract,
    NumpadAdd,
    NumpadEnter,
    NumpadEqual,
    ShiftLeft,
    ControlLeft,
    AltLeft,
    Super,
    ShiftRight,
    ControlRight,
    AltRight,
    ContextMenu,
}

/// The hotkey position that a key is registered under.
pub open spec fn hotkey_code(k: Key) -> HotkeyCode {
    match k {
        Key::Space => HotkeyCode::Space,
        Key::Apostrophe => HotkeyCode::Quote,
        Key::Comma => HotkeyCode::Comma,
        Key::Minus => HotkeyCode::Minus,
        Key::Period => HotkeyCode::Period,
        Key::Slash => HotkeyCode::Slash,
        Key::Key0 => HotkeyCode::Digit0,
        Key::Key1 => HotkeyCode::Digit1,
        Key::Key2 => HotkeyCode::Digit2,
        Key::Key3 => HotkeyCode::Digit3,
        Key::Key4 => HotkeyCode::Digit4,
        Key::Key5 => HotkeyCode::Digit5,
        Key::Key6 => HotkeyCode::Digit6,
        Key::Key7 => HotkeyCode::Digit7,
        Key::Key8 => HotkeyCode::Digit8,
        Key::Key9 => HotkeyCode::Digit9,
        Key::Semicolon => HotkeyCode::Semicolon,
        Key::Equal => HotkeyCode::Equal,
        Key::A => HotkeyCode::KeyA,
        Key::B => HotkeyCode::KeyB,
        Key::C => HotkeyCode::KeyC,
        Key::D => HotkeyCode::KeyD,
        Key::E => HotkeyCode::KeyE,
        Key::F => HotkeyCode::KeyF,
        Key::G => HotkeyCode::KeyG,
        Key::H => HotkeyCode::KeyH,
        Key::I => HotkeyCode::KeyI,
        Key::J => HotkeyCode::KeyJ,
        Key::K => HotkeyCode::KeyK,
        Key::L => HotkeyCode::KeyL,
        Key::M => HotkeyCode::KeyM,
        Key::N => HotkeyCode::KeyN,
        Key::O => HotkeyCode::KeyO,
        Key::P => HotkeyCode::KeyP,
        Key::Q => HotkeyCode::KeyQ,
        Key::R => HotkeyCode::KeyR,
        Key::S => HotkeyCode::KeyS,
        Key::T => HotkeyCode::KeyT,
        Key::U => HotkeyCode::KeyU,
        Key::V => HotkeyCode::KeyV,
        Key::W => HotkeyCode::KeyW,
        Key::X => HotkeyCode::KeyX,
        Key::Y => HotkeyCode::KeyY,
        Key::Z => HotkeyCode::KeyZ,
        Key::LeftBracket => HotkeyCode::BracketLeft,
        Key::Backslash => HotkeyCode::Backslash,
        Key::RightBracket => HotkeyCode::BracketRight,
        Key::GraveAccent => HotkeyCode::Backquote,
        Key::World1 => HotkeyCode::Unidentified,
        Key::World2 => HotkeyCode::Unidentified,
        Key::Escape => HotkeyCode::Escape,
        Key::Enter => HotkeyCode::Enter,
        Key::Tab => HotkeyCode::Tab,
        Key::Backspace => HotkeyCode::Backspace,
        Key::Insert => HotkeyCode::Insert,
        Key::Delete => HotkeyCode::Delete,
        Key::Right => HotkeyCode::ArrowRight,
        Key::Left => HotkeyCode::ArrowLeft,
        Key::Down => HotkeyCode::ArrowDown,
        Key::Up => HotkeyCode::ArrowUp,
        Key::PageUp => HotkeyCode::PageUp,
        Key::PageDown => HotkeyCode::PageDown,
        Key::Home => HotkeyCode::Home,
        Key::End => HotkeyCode::End,
        Key::CapsLock => HotkeyCode::CapsLock,
        Key::ScrollLock => HotkeyCode::ScrollLock,
        Key::NumLock => HotkeyCode::NumLock,
        Key::PrintScreen => HotkeyCode::PrintScreen,
        Key::Pause => HotkeyCode::Pause,
        Key::F1 => HotkeyCode::F1,
        Key::F2 => HotkeyCode::F2,
        Key::F3 => HotkeyCode::F3,
        Key::F4 => HotkeyCode::F4,
        Key::F5 => HotkeyCode::F5,
        Key::F6 => HotkeyCode::F6,
        Key::F7 => HotkeyCode::F7,
        Key::F8 => HotkeyCode::F8,
        Key::F9 => HotkeyCode::F9,
        Key::F10 => HotkeyCode::F10,
        Key::F11 => HotkeyCode::F11,
        Key::F12 => HotkeyCode::F12,
        Key::F13 => HotkeyCode::F13,
        Key::F14 => HotkeyCode::F14,
        Key::F15 => HotkeyCode::F15,
        Key::F16 => HotkeyCode::F16,
        Key::F17 => HotkeyCode::F17,
        Key::F18 => HotkeyCode::F18,
        Key::F19 => HotkeyCode::F19,
        Key::F20 => HotkeyCode::F20,
        Key::F21 => HotkeyCode::F21,
        Key::F22 => HotkeyCode::F22,
        Key::F23 => HotkeyCode::F23,
        Key::F24 => HotkeyCode::F24,
        Key::F25 => HotkeyCode::F25,
        Key::Kp0 => HotkeyCode::Numpad0,
        Key::Kp1 => HotkeyCode::Numpad1,
        Key::Kp2 => HotkeyCode::Numpad2,
        Key::Kp3 => HotkeyCode::Numpad3,
        Key::Kp4 => HotkeyCode::Numpad4,
        Key::Kp5 => HotkeyCode::Numpad5,
        Key::Kp6 => HotkeyCode::Numpad6,
        Key::Kp7 => HotkeyCode::Numpad7,
        Key::Kp8 => HotkeyCode::Numpad8,
        Key::Kp9 => HotkeyCode::Numpad9,
        Key::KpDecimal => HotkeyCode::NumpadDecimal,
        Key::KpDivide => HotkeyCode::NumpadDivide,
        Key::KpMultiply => HotkeyCode::NumpadMultiply,
        Key::KpSubtract => HotkeyCode::NumpadSubtract,
        Key::KpAdd => HotkeyCode::NumpadAdd,
        Key::KpEnter => HotkeyCode::NumpadEnter,
        Key::KpEqual => HotkeyCode::NumpadEqual,
        Key::LeftShift => HotkeyCode::ShiftLeft,
        Key::LeftControl => HotkeyCode::ControlLeft,
        Key::LeftAlt => HotkeyCode::AltLeft,
        Key::LeftSuper => HotkeyCode::Super,
        Key::RightShift => HotkeyCode::ShiftRight,
        Key::RightControl => HotkeyCode::ControlRight,
        Key::RightAlt => HotkeyCode::AltRight,
        Key::RightSuper => HotkeyCode::Super,
        Key::Menu => HotkeyCode::ContextMenu,
        Key::Back => HotkeyCode::Unidentified,
        Key::Unknown => HotkeyCode::Unidentified,
    }
}

/// Translates a key into the position under which the hotkey service
/// registers it.
pub fn mq_key_to_global_hotkey(k: Key) -> (c: HotkeyCode)
    ensures
        c == hotkey_code(k),
{
    match k {
        Key::Space => HotkeyCode::Space,
        Key::Apostrophe => HotkeyCode::Quote,
        Key::Comma => HotkeyCode::Comma,
        Key::Minus => HotkeyCode::Minus,
        Key::Period => HotkeyCode::Period,
        Key::Slash => HotkeyCode::Slash,
        Key::Key0 => HotkeyCode::Digit0,
        Key::Key1 => HotkeyCode::Digit1,
        Key::Key2 => HotkeyCode::Digit2,
        Key::Key3 => HotkeyCode::Digit3,
        Key::Key4 => HotkeyCode::Digit4,
        Key::Key5 => HotkeyCode::Digit5,
        Key::Key6 => HotkeyCode::Digit6,
        Key::Key7 => HotkeyCode::Digit7,
        Key::Key8 => HotkeyCode::Digit8,
        Key::Key9 => HotkeyCode::Digit9,
        Key::Semicolon => HotkeyCode::Semicolon,
        Key::Equal => HotkeyCode::Equal,
        Key::A => HotkeyCode::KeyA,
        Key::B => HotkeyCode::KeyB,
        Key::C => HotkeyCode::KeyC,
        Key::D => HotkeyCode::KeyD,
        Key::E => HotkeyCode::KeyE,
        Key::F => HotkeyCode::KeyF,
        Key::G => HotkeyCode::KeyG,
        Key::H => HotkeyCode::KeyH,
        Key::I => HotkeyCode::KeyI,
        Key::J => HotkeyCode::KeyJ,
        Key::K => HotkeyCode::KeyK,
        Key::L => HotkeyCode::KeyL,
        Key::M => HotkeyCode::KeyM,
        Key::N => HotkeyCode::KeyN,
        Key::O => HotkeyCode::KeyO,
        Key::P => HotkeyCode::KeyP,
        Key::Q => HotkeyCode::KeyQ,
        Key::R => HotkeyCode::KeyR,
        Key::S => HotkeyCode::KeyS,
        Key::T => HotkeyCode::KeyT,
        Key::U => HotkeyCode::KeyU,
        Key::V => HotkeyCode::KeyV,
        Key::W => HotkeyCode::KeyW,
        Key::X => HotkeyCode::KeyX,
        Key::Y => HotkeyCode::KeyY,
        Key::Z => HotkeyCode::KeyZ,
        Key::LeftBracket => HotkeyCode::BracketLeft,
        Key::Backslash => HotkeyCode::Backslash,
        Key::RightBracket => HotkeyCode::BracketRight,
        Key::GraveAccent => HotkeyCode::Backquote,
        Key::World1 => HotkeyCode::Unidentified,
        Key::World2 => HotkeyCode::Unidentified,
        Key::Escape => HotkeyCode::Escape,
        Key::Enter => HotkeyCode::Enter,
        Key::Tab => HotkeyCode::Tab,
        Key::Backspace => HotkeyCode::Backspace,
        Key::Insert => HotkeyCode::Insert,
        Key::Delete => HotkeyCode::Delete,
        Key::Right => HotkeyCode::ArrowRight,
        Key::Left => HotkeyCode::ArrowLeft,
        Key::Down => HotkeyCode::ArrowDown,
        Key::Up => HotkeyCode::ArrowUp,
        Key::PageUp => HotkeyCode::PageUp,
        Key::PageDown => HotkeyCode::PageDown,
        Key::Home => HotkeyCode::Home,
        Key::End => HotkeyCode::End,
        Key::CapsLock => HotkeyCode::CapsLock,
        Key::ScrollLock => HotkeyCode::ScrollLock,
        Key::NumLock => HotkeyCode::NumLock,
        Key::PrintScreen => HotkeyCode::PrintScreen,
        Key::Pause => HotkeyCode::Pause,
        Key::F1 => HotkeyCode::F1,
        Key::F2 => HotkeyCode::F2,
        Key::F3 => HotkeyCode::F3,
        Key::F4 => HotkeyCode::F4,
        Key::F5 => HotkeyCode::F5,
        Key::F6 => HotkeyCode::F6,
        Key::F7 => HotkeyCode::F7,
        Key::F8 => HotkeyCode::F8,
        Key::F9 => HotkeyCode::F9,
        Key::F10 => HotkeyCode::F10,
        Key::F11 => HotkeyCode::F11,
        Key::F12 => HotkeyCode::F12,
        Key::F13 => HotkeyCode::F13,
        Key::F14 => HotkeyCode::F14,
        Key::F15 => HotkeyCode::F15,
        Key::F16 => HotkeyCode::F16,
        Key::F17 => HotkeyCode::F17,
        Key::F18 => HotkeyCode::F18,
        Key::F19 => HotkeyCode::F19,
        Key::F20 => HotkeyCode::F20,
        Key::F21 => HotkeyCode::F21,
        Key::F22 => HotkeyCode::F22,
        Key::F23 => HotkeyCode::F23,
        Key::F24 => HotkeyCode::F24,
        Key::F25 => HotkeyCode::F25,
        Key::Kp0 => HotkeyCode::Numpad0,
        Key::Kp1 => HotkeyCode::Numpad1,
        Key::Kp2 => HotkeyCode::Numpad2,
        Key::Kp3 => HotkeyCode::Numpad3,
        Key::Kp4 => HotkeyCode::Numpad4,
        Key::Kp5 => HotkeyCode::Numpad5,
        Key::Kp6 => HotkeyCode::Numpad6,
        Key::Kp7 => HotkeyCode::Numpad7,
        Key::Kp8 => HotkeyCode::Numpad8,
        Key::Kp9 => HotkeyCode::Numpad9,
        Key::KpDecimal => HotkeyCode::NumpadDecimal,
        Key::KpDivide => HotkeyCode::NumpadDivide,
        Key::KpMultiply => HotkeyCode::NumpadMultiply,
        Key::KpSubtract => HotkeyCode::NumpadSubtract,
        Key::KpAdd => HotkeyCode::NumpadAdd,
        Key::KpEnter => HotkeyCode::NumpadEnter,
        Key::KpEqual => HotkeyCode::NumpadEqual,
        Key::LeftShift => HotkeyCode::ShiftLeft,
        Key::LeftControl => HotkeyCode::ControlLeft,
        Key::LeftAlt => HotkeyCode::AltLeft,
        Key::LeftSuper => HotkeyCode::Super,
        Key::RightShift => HotkeyCode::ShiftRight,
        Key::RightControl => HotkeyCode::ControlRight,
        Key::RightAlt => HotkeyCode::AltRight,
        Key::RightSuper => HotkeyCode::Super,
        Key::Menu => HotkeyCode::ContextMenu,
        Key::Back => HotkeyCode::Unidentified,
        Key::Unknown => HotkeyCode::Unidentified,
    }
}

/// The key that maps to a hotkey position, for positions that exactly one key maps to.
spec fn key_for_hotkey_code(c: HotkeyCode) -> Key {
    match c {
        HotkeyCode::Space => Key::Space,
        HotkeyCode::Quote => Key::Apostrophe,
        HotkeyCode::Comma => Key::Comma,
        HotkeyCode::Minus => Key::Minus,
        HotkeyCode::Period => Key::Period,
        HotkeyCode::Slash => Key::Slash,
        HotkeyCode::Digit0 => Key::Key0,
        HotkeyCode::Digit1 => Key::Key1,
        HotkeyCode::Digit2 => Key::Key2,
        HotkeyCode::Digit3 => Key::Key3,
        HotkeyCode::Digit4 => Key::Key4,
        HotkeyCode::Digit5 => Key::Key5,
        HotkeyCode::Digit6 => Key::Key6,
        HotkeyCode::Digit7 => Key::Key7,
        HotkeyCode::Digit8 => Key::Key8,
        HotkeyCode::Digit9 => Key::Key9,
        HotkeyCode::Semicolon => Key::Semicolon,
        HotkeyCode::Equal => Key::Equal,
        HotkeyCode::KeyA => Key::A,
        HotkeyCode::KeyB => Key::B,
        HotkeyCode::KeyC => Key::C,
        HotkeyCode::KeyD => Key::D,
        HotkeyCode::KeyE => Key::E,
        HotkeyCode::KeyF => Key::F,
        HotkeyCode::KeyG => Key::G,
        HotkeyCode::KeyH => Key::H,
        HotkeyCode::KeyI => Key::I,
        HotkeyCode::KeyJ => Key::J,
        HotkeyCode::KeyK => Key::K,
        HotkeyCode::KeyL => Key::L,
        HotkeyCode::KeyM => Key::M,
        HotkeyCode::KeyN => Key::N,
        HotkeyCode::KeyO => Key::O,
        HotkeyCode::KeyP => Key::P,
        HotkeyCode::KeyQ => Key::Q,
        HotkeyCode::KeyR => Key::R,
        HotkeyCode::KeyS => Key::S,
        HotkeyCode::KeyT => Key::T,
        HotkeyCode::KeyU => Key::U,
        HotkeyCode::KeyV => Key::V,
        HotkeyCode::KeyW => Key::W,
        HotkeyCode::KeyX => Key::X,
        HotkeyCode::KeyY => Key::Y,
        HotkeyCode::KeyZ => Key::Z,
        HotkeyCode::BracketLeft => Key::LeftBracket,
        HotkeyCode::Backslash => Key::Backslash,
        HotkeyCode::BracketRight => Key::RightBracket,
        HotkeyCode::Backquote => Key::GraveAccent,
        HotkeyCode::Escape => Key::Escape,
        HotkeyCode::Enter => Key::Enter,
        HotkeyCode::Tab => Key::Tab,
        HotkeyCode::Backspace => Key::Backspace,
        HotkeyCode::Insert => Key::Insert,
        HotkeyCode::Delete => Key::Delete,
        HotkeyCode::ArrowRight => Key::Right,
        HotkeyCode::ArrowLeft => Key::Left,
        HotkeyCode::ArrowDown => Key::Down,
        HotkeyCode::ArrowUp => Key::Up,
        HotkeyCode::PageUp => Key::PageUp,
        HotkeyCode::PageDown => Key::PageDown,
        HotkeyCode::Home => Key::Home,
        HotkeyCode::End => Key::End,
        HotkeyCode::CapsLock => Key::CapsLock,
        HotkeyCode::ScrollLock => Key::ScrollLock,
        HotkeyCode::NumLock => Key::NumLock,
        HotkeyCode::PrintScreen => Key::PrintScreen,
        HotkeyCode::Pause => Key::Pause,
        HotkeyCode::F1 => Key::F1,
        HotkeyCode::F2 => Key::F2,
        HotkeyCode::F3 => Key::F3,
        HotkeyCode::F4 => Key::F4,
        HotkeyCode::F5 => Key::F5,
        HotkeyCode::F6 => Key::F6,
        HotkeyCode::F7 => Key::F7,
        HotkeyCode::F8 => Key::F8,
        HotkeyCode::F9 => Key::F9,
        HotkeyCode::F10 => Key::F10,
        HotkeyCode::F11 => Key::F11,
        HotkeyCode::F12 => Key::F12,
        HotkeyCode::F13 => Key::F13,
        HotkeyCode::F14 => Key::F14,
        HotkeyCode::F15 => Key::F15,
        HotkeyCode::F16 => Key::F16,
        HotkeyCode::F17 => Key::F17,
        HotkeyCode::F18 => Key::F18,
        HotkeyCode::F19 => Key::F19,
        HotkeyCode::F20 => Key::F20,
        HotkeyCode::F21 => Key::F21,
        HotkeyCode::F22 => Key::F22,
        HotkeyCode::F23 => Key::F23,
        HotkeyCode::F24 => Key::F24,
        HotkeyCode::F25 => Key::F25,
        HotkeyCode::Numpad0 => Key::Kp0,
        HotkeyCode::Numpad1 => Key::Kp1,
        HotkeyCode::Numpad2 => Key::Kp2,
        HotkeyCode::Numpad3 => Key::Kp3,
        HotkeyCode::Numpad4 => Key::Kp4,
        HotkeyCode::Numpad5 => Key::Kp5,
        HotkeyCode::Numpad6 => Key::Kp6,
        HotkeyCode::Numpad7 => Key::Kp7,
        HotkeyCode::Numpad8 => Key::Kp8,
        HotkeyCode::Numpad9 => Key::Kp9,
        HotkeyCode::NumpadDecimal => Key::KpDecimal,
        HotkeyCode::NumpadDivide => Key::KpDivide,
        HotkeyCode::NumpadMultiply => Key::KpMultiply,
        HotkeyCode::NumpadSubtract => Key::KpSubtract,
        HotkeyCode::NumpadAdd => Key::KpAdd,
        HotkeyCode::NumpadEnter => Key::KpEnter,
        HotkeyCode::NumpadEqual => Key::KpEqual,
        HotkeyCode::ShiftLeft => Key::LeftShift,
        HotkeyCode::ControlLeft => Key::LeftControl,
        HotkeyCode::AltLeft => Key::LeftAlt,
        HotkeyCode::ShiftRight => Key::RightShift,
        HotkeyCode::ControlRight => Key::RightControl,
        HotkeyCode::AltRight => Key::RightAlt,
        HotkeyCode::ContextMenu => Key::Menu,
        _ => Key::Unknown,
    }
}

/// The keys that the hotkey service has no position of its own for.
pub open spec fn is_unplaced_key(k: Key) -> bool {
    k == Key::World1 || k == Key::World2 || k == Key::Unknown || k == Key::Back
}

/// A key is registered as an unidentified position exactly when it is one of
/// the two world keys, the unknown key or the back button.
pub proof fn lemma_unidentified_keys(k: Key)
    ensures
        hotkey_code(k) == HotkeyCode::Unidentified <==> is_unplaced_key(k),
{
}

/// The left and right super keys are registered under one shared position, and
/// no other key is.
pub proof fn lemma_super_keys(k: Key)
    ensures
        hotkey_code(k) == HotkeyCode::Super <==> (k == Key::LeftSuper || k == Key::RightSuper),
{
}

/// Apart from the unplaced keys and the two super keys, distinct keys are
/// registered under distinct positions.
pub proof fn lemma_hotkey_code_injective(a: Key, b: Key)
    requires
        !is_unplaced_key(a),
        !is_unplaced_key(b),
        hotkey_code(a) != HotkeyCode::Super,
    ensures
        hotkey_code(a) == hotkey_code(b) ==> a == b,
{
    assert(key_for_hotkey_code(hotkey_code(a)) == a);
    if hotkey_code(b) != HotkeyCode::Super {
        assert(key_for_hotkey_code(hotkey_code(b)) == b);
    }
}

} // verus!

verus! {

/// The key that has code `c`, if any.
pub open spec fn key_for_code(c: u16) -> Option<Key> {
    if exists|k: Key| key_code(k) == c {
        Some(choose|k: Key| key_code(k) == c)
    } else {
        None
    }
}

/// Looking up a key's own code finds that key.
pub proof fn lemma_key_for_own_code(k: Key)
    ensures
        key_for_code(key_code(k)) == Some(k),
{
    let j = choose|j: Key| key_code(j) == key_code(k);
    lemma_key_code_injective(j, k);
}

/// `from_code` finds exactly the key that `key_for_code` names.
pub proof fn lemma_from_code_is_lookup(c: u16, r: Option<Key>)
    requires
        r matches Some(k) ==> key_code(k) == c,
        r is None <==> (forall|k: Key| key_code(k) != c),
    ensures
        r == key_for_code(c),
{
    if let Some(k) = r {
        lemma_key_for_own_code(k);
    }
}

} // verus!
