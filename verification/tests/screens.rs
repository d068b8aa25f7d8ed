use shittuber::controls::{
    emotion_for_hotkey, listen_for_hotkey, screen_step, KeyCapture, Screen, ScreenEvent, ScreenStep,
};
use shittuber::keys::Key;
use shittuber::names::sort_names;
use shittuber::settings::HotkeyPrefs;

#[test]
fn escape_stops_waiting() {
    let mut p = HotkeyPrefs::default_prefs();
    let before = p.keys;
    assert_eq!(
        listen_for_hotkey(&mut p, 4, &[Key::LeftShift, Key::Escape]),
        KeyCapture { captured: None, stop_listening: true, keys_handled: 1 }
    );
    assert_eq!(p.keys, before);
}

#[test]
fn plain_key_is_captured_even_after_escape() {
    let mut p = HotkeyPrefs::default_prefs();
    assert_eq!(
        listen_for_hotkey(&mut p, 4, &[Key::Escape, Key::LeftControl, Key::A]),
        KeyCapture { captured: Some(Key::A), stop_listening: true, keys_handled: 2 }
    );
    assert_eq!(p.keys[3], Key::A);
}

#[test]
fn last_plain_key_wins() {
    let mut p = HotkeyPrefs::default_prefs();
    assert_eq!(
        listen_for_hotkey(&mut p, 9, &[Key::Q, Key::RightAlt, Key::W, Key::Escape]),
        KeyCapture { captured: Some(Key::W), stop_listening: true, keys_handled: 3 }
    );
    assert_eq!(p.keys[8], Key::W);
}

#[test]
fn modifiers_alone_keep_waiting() {
    let mut p = HotkeyPrefs::default_prefs();
    let waiting = KeyCapture { captured: None, stop_listening: false, keys_handled: 0 };
    assert_eq!(listen_for_hotkey(&mut p, 1, &[Key::LeftShift, Key::RightControl]), waiting);
    assert_eq!(listen_for_hotkey(&mut p, 1, &[]), waiting);
    assert_eq!(p.keys[0], Key::Key1);
}

#[test]
fn hotkey_selects_last_matching_slot_within_the_emotions() {
    let ids = [10u32, 20, 30, 20, 20];
    assert_eq!(emotion_for_hotkey(&ids, 20, 5, 0), 4);
    assert_eq!(emotion_for_hotkey(&ids, 20, 4, 0), 3);
    assert_eq!(emotion_for_hotkey(&ids, 20, 2, 0), 1);
    assert_eq!(emotion_for_hotkey(&ids, 30, 2, 1), 1);
    assert_eq!(emotion_for_hotkey(&ids, 99, 5, 2), 2);
}

#[test]
fn screens_follow_the_buttons() {
    assert_eq!(
        screen_step(Screen::Select, ScreenEvent::PickAvatar(3)),
        ScreenStep { screen: Screen::Main(3), reset_view: true, save_settings: false }
    );
    assert_eq!(screen_step(Screen::Main(3), ScreenEvent::Back).screen, Screen::Select);
    assert_eq!(screen_step(Screen::Select, ScreenEvent::OpenSettings).screen, Screen::Settings(None));
    assert_eq!(screen_step(Screen::Select, ScreenEvent::Back).screen, Screen::Select);
}

#[test]
fn leaving_settings_saves_and_returns() {
    let s = screen_step(Screen::Main(2), ScreenEvent::OpenSettings);
    assert_eq!(s.screen, Screen::Settings(Some(2)));
    assert!(!s.save_settings);
    let back = screen_step(s.screen, ScreenEvent::Back);
    assert_eq!(back, ScreenStep { screen: Screen::Main(2), reset_view: false, save_settings: true });
    let back = screen_step(Screen::Settings(None), ScreenEvent::Back);
    assert_eq!(back.screen, Screen::Select);
    assert!(back.save_settings);
}

#[test]
fn avatar_names_are_sorted() {
    let names: Vec<String> = ["avatars/b", "avatars/a", "avatars/ab", "avatars/B", "avatars/a"]
        .iter()
        .map(|s| s.to_string())
        .collect();
    let mut expected = names.clone();
    expected.sort();
    assert_eq!(sort_names(&names), expected);
    assert_eq!(sort_names(&Vec::new()), Vec::<String>::new());
    let odd: Vec<String> = ["é", "z", "", "zz", "Ω"].iter().map(|s| s.to_string()).collect();
    let mut expected = odd.clone();
    expected.sort();
    assert_eq!(sort_names(&odd), expected);
}
