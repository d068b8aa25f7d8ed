use global_hotkey::hotkey::{Code, HotKey, Modifiers};
use shittuber::keys::Key;
use shittuber::settings::{HotkeyPrefs, SettingsError, SettingsFile};

fn default_file() -> SettingsFile {
    SettingsFile {
        thresh: "0.5".to_string(),
        coyote_time: "0.05".to_string(),
        prefs: HotkeyPrefs::default_prefs(),
    }
}

#[test]
fn default_prefs_hold_shift_and_alt_with_digit_keys() {
    let p = HotkeyPrefs::default_prefs();
    assert!(!p.use_ctrl && p.use_shift && p.use_alt);
    assert_eq!(
        p.keys,
        [Key::Key1, Key::Key2, Key::Key3, Key::Key4, Key::Key5, Key::Key6, Key::Key7, Key::Key8, Key::Key9]
    );
}

#[test]
fn settings_are_written_one_value_per_line() {
    assert_eq!(
        default_file().to_text(),
        "0.5\n0.05\nfalse\ntrue\ntrue\n49\n50\n51\n52\n53\n54\n55\n56\n57"
    );
}

#[test]
fn written_settings_read_back() {
    let mut f = default_file();
    f.prefs.use_ctrl = true;
    f.prefs.set_hotkey(3, Key::Delete);
    f.prefs.set_hotkey(9, Key::F12);
    let text = f.to_text();
    let g = SettingsFile::from_text(&text).unwrap();
    assert_eq!(g.thresh, f.thresh);
    assert_eq!(g.coyote_time, f.coyote_time);
    assert_eq!(g.prefs.use_ctrl, true);
    assert_eq!(g.prefs.use_shift, true);
    assert_eq!(g.prefs.use_alt, true);
    assert_eq!(g.prefs.keys, f.prefs.keys);
    assert_eq!(g.prefs.keys[2], Key::Delete);
}

#[test]
fn short_files_hold_no_settings() {
    assert_eq!(SettingsFile::from_text("").unwrap_err(), SettingsError::TooFewLines);
    let thirteen = "0.5\n0.05\nfalse\ntrue\ntrue\n49\n50\n51\n52\n53\n54\n55\n56";
    assert_eq!(SettingsFile::from_text(thirteen).unwrap_err(), SettingsError::TooFewLines);
}

#[test]
fn extra_lines_are_ignored_and_flags_need_exact_true() {
    let text = "1\n2\nTrue\ntrue \ntrue\n49\n50\n51\n52\n53\n54\n55\n56\n57\nextra\n";
    let g = SettingsFile::from_text(text).unwrap();
    assert_eq!(g.thresh, "1");
    assert_eq!(g.coyote_time, "2");
    assert!(!g.prefs.use_ctrl);
    assert!(!g.prefs.use_shift);
    assert!(g.prefs.use_alt);
}

#[test]
fn bad_key_numbers_are_reported_by_line() {
    let text = "0.5\n0.05\nfalse\ntrue\ntrue\n49\n50\nx\n52\n53\n54\n55\n56\n57";
    assert_eq!(SettingsFile::from_text(text).unwrap_err(), SettingsError::NotANumber { line: 7 });
    let text = "0.5\n0.05\nfalse\ntrue\ntrue\n49\n50\n51\n52\n53\n54\n55\n56\n70000";
    assert_eq!(SettingsFile::from_text(text).unwrap_err(), SettingsError::NotANumber { line: 13 });
}

#[test]
fn codes_of_no_key_are_reported() {
    let text = "0.5\n0.05\nfalse\ntrue\ntrue\n2\n50\nx\n52\n53\n54\n55\n56\n57";
    assert_eq!(
        SettingsFile::from_text(text).unwrap_err(),
        SettingsError::UnknownKeyCode { line: 5, code: 2 }
    );
}

#[test]
fn hotkey_slots_are_numbered_from_one() {
    let mut p = HotkeyPrefs::default_prefs();
    p.set_hotkey(1, Key::Q);
    assert_eq!(p.keys[0], Key::Q);
    let before = p.keys;
    p.set_hotkey(0, Key::W);
    p.set_hotkey(10, Key::W);
    assert_eq!(p.keys, before);
}

#[test]
fn slot_hotkeys_carry_the_service_ids() {
    let mut p = HotkeyPrefs::default_prefs();
    p.set_hotkey(2, Key::World1);
    p.set_hotkey(3, Key::Kp3);
    let b = p.hotkey_bindings();
    assert_eq!(b.len(), 9);
    let mods = Modifiers::SHIFT | Modifiers::ALT;
    assert_eq!(b[0].id(), HotKey::new(Some(mods), Code::Digit1).id);
    assert_eq!(b[0].hotkey(), HotKey::new(Some(mods), Code::Digit1));
    assert_eq!(b[1].id(), HotKey::new(Some(mods), Code::Unidentified).id);
    assert_eq!(b[2].id(), HotKey::new(Some(mods), Code::Numpad3).id);
    assert_eq!(b[8].id(), HotKey::new(Some(mods), Code::Digit9).id);
    assert_ne!(b[0].id(), b[8].id());
    p.use_ctrl = true;
    p.use_alt = false;
    let c = p.hotkey_bindings();
    assert_eq!(c[0].id(), HotKey::new(Some(Modifiers::CONTROL | Modifiers::SHIFT), Code::Digit1).id);
    assert_ne!(c[0].id(), b[0].id());
}

#[test]
fn written_thresholds_read_back_as_the_same_floats() {
    for (t, c) in [(0.5f32, 0.05f32), (0.0, 0.0), (1.0, 0.123456789), (0.33333334, 1e-7), (3.4e38, 0.25)] {
        let f = SettingsFile { thresh: t.to_string(), coyote_time: c.to_string(), prefs: HotkeyPrefs::default_prefs() };
        let text = f.to_text();
        let lines: Vec<&str> = text.split('\n').collect();
        assert_eq!(lines.len(), 14);
        assert_eq!(lines[0].parse::<f32>(), Ok(t));
        assert_eq!(lines[1].parse::<f32>(), Ok(c));
        let g = SettingsFile::from_text(&text).unwrap();
        assert_eq!(g.thresh.parse::<f32>(), Ok(t));
        assert_eq!(g.coyote_time.parse::<f32>(), Ok(c));
        for i in 0..9 {
            assert_eq!(lines[5 + i].parse::<u16>(), Ok(f.prefs.keys[i].code()));
        }
    }
}

#[test]
fn hotkey_ids_hold_modifier_bits_above_the_key_number() {
    let mut p = HotkeyPrefs::default_prefs();
    p.set_hotkey(2, Key::World1);
    p.set_hotkey(3, Key::Kp3);
    let b = p.hotkey_bindings();
    assert_eq!(b[0].id(), 0x0201_0006);
    assert_eq!(b[1].id(), 0x0201_009f);
    assert_eq!(b[2].id(), 0x0201_0057);
    assert_eq!(b[8].id(), 0x0201_000e);
    p.use_ctrl = true;
    p.use_shift = false;
    p.use_alt = false;
    assert_eq!(p.hotkey_bindings()[0].id(), 0x0008_0006);
}
