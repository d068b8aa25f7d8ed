use std::str::FromStr;

use shittuber::keys::{mq_key_to_global_hotkey, HotkeyCode, Key};

#[test]
fn keys_have_their_keysym_codes() {
    assert_eq!(Key::Space.code(), 0x20);
    assert_eq!(Key::A.code(), 0x41);
    assert_eq!(Key::Key1.code(), 0x31);
    assert_eq!(Key::Delete.code(), 0xffff);
    assert_eq!(Key::Unknown.code(), 0x01ff);
    assert_eq!(Key::Back.code(), 0xff04);
}

#[test]
fn codes_lead_back_to_their_keys() {
    for k in [Key::Space, Key::Z, Key::F25, Key::KpEnter, Key::RightSuper, Key::World2, Key::Menu] {
        assert_eq!(Key::from_code(k.code()), Some(k));
    }
    assert_eq!(Key::from_code(0x20), Some(Key::Space));
    assert_eq!(Key::from_code(0xffbe), Some(Key::F1));
}

#[test]
fn codes_of_no_key_give_none() {
    assert_eq!(Key::from_code(0), None);
    assert_eq!(Key::from_code(0x61), None);
    assert_eq!(Key::from_code(0xfffe), None);
}

#[test]
fn every_code_names_at_most_one_key() {
    let mut seen = std::collections::HashMap::new();
    for c in 0..=u16::MAX {
        if let Some(k) = Key::from_code(c) {
            assert_eq!(k.code(), c);
            assert!(seen.insert(k, c).is_none());
        }
    }
    assert_eq!(seen.len(), 122);
}

#[test]
fn keys_map_to_hotkey_positions() {
    assert_eq!(mq_key_to_global_hotkey(Key::A), HotkeyCode::KeyA);
    assert_eq!(mq_key_to_global_hotkey(Key::Apostrophe), HotkeyCode::Quote);
    assert_eq!(mq_key_to_global_hotkey(Key::Key7), HotkeyCode::Digit7);
    assert_eq!(mq_key_to_global_hotkey(Key::Kp5), HotkeyCode::Numpad5);
    assert_eq!(mq_key_to_global_hotkey(Key::GraveAccent), HotkeyCode::Backquote);
    assert_eq!(mq_key_to_global_hotkey(Key::Right), HotkeyCode::ArrowRight);
    assert_eq!(mq_key_to_global_hotkey(Key::LeftControl), HotkeyCode::ControlLeft);
    assert_eq!(mq_key_to_global_hotkey(Key::Menu), HotkeyCode::ContextMenu);
    assert_eq!(mq_key_to_global_hotkey(Key::F25), HotkeyCode::F25);
}

#[test]
fn unplaced_keys_map_to_unidentified() {
    for k in [Key::World1, Key::World2, Key::Unknown, Key::Back] {
        assert_eq!(mq_key_to_global_hotkey(k), HotkeyCode::Unidentified);
    }
    assert_ne!(mq_key_to_global_hotkey(Key::Space), HotkeyCode::Unidentified);
}

#[test]
fn both_super_keys_share_a_position() {
    assert_eq!(mq_key_to_global_hotkey(Key::LeftSuper), HotkeyCode::Super);
    assert_eq!(mq_key_to_global_hotkey(Key::RightSuper), HotkeyCode::Super);
}

#[test]
fn other_keys_get_distinct_positions() {
    let mut seen = std::collections::HashMap::new();
    for c in 0..=u16::MAX {
        if let Some(k) = Key::from_code(c) {
            let p = mq_key_to_global_hotkey(k);
            if p == HotkeyCode::Unidentified || p == HotkeyCode::Super {
                continue;
            }
            assert!(seen.insert(p, k).is_none());
        }
    }
    assert_eq!(seen.len(), 116);
}

#[test]
fn only_shift_control_and_alt_are_modifiers() {
    for k in [Key::LeftShift, Key::RightShift, Key::LeftControl, Key::RightControl, Key::LeftAlt, Key::RightAlt] {
        assert!(k.is_modifier());
    }
    for k in [Key::LeftSuper, Key::Escape, Key::A, Key::CapsLock] {
        assert!(!k.is_modifier());
    }
}

#[test]
fn every_position_names_a_service_key() {
    for c in 0..=u16::MAX {
        if let Some(k) = Key::from_code(c) {
            let p = mq_key_to_global_hotkey(k);
            let name = format!("{:?}", p);
            let code = global_hotkey::hotkey::Code::from_str(&name).unwrap();
            assert_eq!(format!("{:?}", code), name);
        }
    }
}
