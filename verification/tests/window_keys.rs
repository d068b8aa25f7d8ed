use global_hotkey::hotkey::{Code, HotKey, Modifiers};
use macroquad::input::KeyCode;
use shittuber::keys::Key;
use shittuber::settings::HotkeyPrefs;

fn all_keys() -> Vec<(Key, KeyCode)> {
    vec![
        (Key::Space, KeyCode::Space),
        (Key::Apostrophe, KeyCode::Apostrophe),
        (Key::Comma, KeyCode::Comma),
        (Key::Minus, KeyCode::Minus),
        (Key::Period, KeyCode::Period),
        (Key::Slash, KeyCode::Slash),
        (Key::Key0, KeyCode::Key0),
        (Key::Key1, KeyCode::Key1),
        (Key::Key2, KeyCode::Key2),
        (Key::Key3, KeyCode::Key3),
        (Key::Key4, KeyCode::Key4),
        (Key::Key5, KeyCode::Key5),
        (Key::Key6, KeyCode::Key6),
        (Key::Key7, KeyCode::Key7),
        (Key::Key8, KeyCode::Key8),
        (Key::Key9, KeyCode::Key9),
        (Key::Semicolon, KeyCode::Semicolon),
        (Key::Equal, KeyCode::Equal),
        (Key::A, KeyCode::A),
        (Key::B, KeyCode::B),
        (Key::C, KeyCode::C),
        (Key::D, KeyCode::D),
        (Key::E, KeyCode::E),
        (Key::F, KeyCode::F),
        (Key::G, KeyCode::G),
        (Key::H, KeyCode::H),
        (Key::I, KeyCode::I),
        (Key::J, KeyCode::J),
        (Key::K, KeyCode::K),
        (Key::L, KeyCode::L),
        (Key::M, KeyCode::M),
        (Key::N, KeyCode::N),
        (Key::O, KeyCode::O),
        (Key::P, KeyCode::P),
        (Key::Q, KeyCode::Q),
        (Key::R, KeyCode::R),
        (Key::S, KeyCode::S),
        (Key::T, KeyCode::T),
        (Key::U, KeyCode::U),
        (Key::V, KeyCode::V),
        (Key::W, KeyCode::W),
        (Key::X, KeyCode::X),
        (Key::Y, KeyCode::Y),
        (Key::Z, KeyCode::Z),
        (Key::LeftBracket, KeyCode::LeftBracket),
        (Key::Backslash, KeyCode::Backslash),
        (Key::RightBracket, KeyCode::RightBracket),
        (Key::GraveAccent, KeyCode::GraveAccent),
        (Key::World1, KeyCode::World1),
        (Key::World2, KeyCode::World2),
        (Key::Escape, KeyCode::Escape),
        (Key::Enter, KeyCode::Enter),
        (Key::Tab, KeyCode::Tab),
        (Key::Backspace, KeyCode::Backspace),
        (Key::Insert, KeyCode::Insert),
        (Key::Delete, KeyCode::Delete),
        (Key::Right, KeyCode::Right),
        (Key::Left, KeyCode::Left),
        (Key::Down, KeyCode::Down),
        (Key::Up, KeyCode::Up),
        (Key::PageUp, KeyCode::PageUp),
        (Key::PageDown, KeyCode::PageDown),
        (Key::Home, KeyCode::Home),
        (Key::End, KeyCode::End),
        (Key::CapsLock, KeyCode::CapsLock),
        (Key::ScrollLock, KeyCode::ScrollLock),
        (Key::NumLock, KeyCode::NumLock),
        (Key::PrintScreen, KeyCode::PrintScreen),
        (Key::Pause, KeyCode::Pause),
        (Key::F1, KeyCode::F1),
        (Key::F2, KeyCode::F2),
        (Key::F3, KeyCode::F3),
        (Key::F4, KeyCode::F4),
        (Key::F5, KeyCode::F5),
        (Key::F6, KeyCode::F6),
        (Key::F7, KeyCode::F7),
        (Key::F8, KeyCode::F8),
        (Key::F9, KeyCode::F9),
        (Key::F10, KeyCode::F10),
        (Key::F11, KeyCode::F11),
        (Key::F12, KeyCode::F12),
        (Key::F13, KeyCode::F13),
        (Key::F14, KeyCode::F14),
        (Key::F15, KeyCode::F15),
        (Key::F16, KeyCode::F16),
        (Key::F17, KeyCode::F17),
        (Key::F18, KeyCode::F18),
        (Key::F19, KeyCode::F19),
        (Key::F20, KeyCode::F20),
        (Key::F21, KeyCode::F21),
        (Key::F22, KeyCode::F22),
        (Key::F23, KeyCode::F23),
        (Key::F24, KeyCode::F24),
        (Key::F25, KeyCode::F25),
        (Key::Kp0, KeyCode::Kp0),
        (Key::Kp1, KeyCode::Kp1),
        (Key::Kp2, KeyCode::Kp2),
        (Key::Kp3, KeyCode::Kp3),
        (Key::Kp4, KeyCode::Kp4),
        (Key::Kp5, KeyCode::Kp5),
        (Key::Kp6, KeyCode::Kp6),
        (Key::Kp7, KeyCode::Kp7),
        (Key::Kp8, KeyCode::Kp8),
        (Key::Kp9, KeyCode::Kp9),
        (Key::KpDecimal, KeyCode::KpDecimal),
        (Key::KpDivide, KeyCode::KpDivide),
        (Key::KpMultiply, KeyCode::KpMultiply),
        (Key::KpSubtract, KeyCode::KpSubtract),
        (Key::KpAdd, KeyCode::KpAdd),
        (Key::KpEnter, KeyCode::KpEnter),
        (Key::KpEqual, KeyCode::KpEqual),
        (Key::LeftShift, KeyCode::LeftShift),
        (Key::LeftControl, KeyCode::LeftControl),
        (Key::LeftAlt, KeyCode::LeftAlt),
        (Key::LeftSuper, KeyCode::LeftSuper),
        (Key::RightShift, KeyCode::RightShift),
        (Key::RightControl, KeyCode::RightControl),
        (Key::RightAlt, KeyCode::RightAlt),
        (Key::RightSuper, KeyCode::RightSuper),
        (Key::Menu, KeyCode::Menu),
        (Key::Back, KeyCode::Back),
        (Key::Unknown, KeyCode::Unknown),
    ]
}

#[test]
fn key_codes_match_the_window_layer() {
    let keys = all_keys();
    assert_eq!(keys.len(), 122);
    for (k, w) in keys {
        assert_eq!(k.code(), w as u16, "{:?}", k);
        assert_eq!(Key::from_code(w as u16), Some(k));
        assert_eq!(format!("{:?}", k), format!("{:?}", w));
    }
}

#[test]
fn every_key_position_builds_a_hotkey() {
    for (k, _) in all_keys() {
        let mut p = HotkeyPrefs::default_prefs();
        p.set_hotkey(5, k);
        let b = p.hotkey_bindings();
        assert_eq!(b[4].id(), b[4].hotkey().id);
    }
}

#[test]
fn default_hotkeys_are_shift_alt_digits() {
    let b = HotkeyPrefs::default_prefs().hotkey_bindings();
    let mods = Modifiers::ALT | Modifiers::SHIFT;
    let digits = [
        Code::Digit1, Code::Digit2, Code::Digit3, Code::Digit4, Code::Digit5,
        Code::Digit6, Code::Digit7, Code::Digit8, Code::Digit9,
    ];
    assert_eq!(b.len(), 9);
    for i in 0..9 {
        assert_eq!(b[i].hotkey(), HotKey::new(Some(mods), digits[i]));
        assert_eq!(b[i].id(), HotKey::new(Some(mods), digits[i]).id);
    }
}
