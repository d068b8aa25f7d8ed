use vstd::prelude::*;

use crate::keys::{is_modifier_key, Key};
use crate::settings::HotkeyPrefs;

verus! {

/// What the keys pressed in one frame do while a hotkey slot waits for its key.
#[derive(Clone, Copy, Debug, PartialEq, Eq, Structural)]
pub struct KeyCapture {
    /// The key that becomes the slot's key, if any was captured.
    pub captured: Option<Key>,
    /// Whether the slot stops waiting.
    pub stop_listening: bool,
    /// How many of the keys were acted on (Escape or a captured key); each
    /// such key ends a frame.
    pub keys_handled: usize,
}

/// The abstract outcome of a frame's keys while a slot waits.
pub struct CaptureModel {
    pub captured: Option<Key>,
    pub stop_listening: bool,
    pub keys_handled: nat,
}

/// The keys are taken in order: Escape stops the waiting; any key other than
/// Escape, shift, control or alt is captured and stops the waiting too, a
/// later captured key replacing an earlier one; shift, control and alt are
/// skipped.
pub open spec fn capture_of(pressed: Seq<Key>) -> CaptureModel
    decreases pressed.len(),
{
    if pressed.len() == 0 {
        CaptureModel { captured: None, stop_listening: false, keys_handled: 0 }
    } else {
        let prev = capture_of(pressed.drop_last());
        let k = pressed.last();
        if k == Key::Escape {
            CaptureModel { captured: prev.captured, stop_listening: true, keys_handled: prev.keys_handled + 1 }
        } else if !is_modifier_key(k) {
            CaptureModel { captured: Some(k), stop_listening: true, keys_handled: prev.keys_handled + 1 }
        } else {
            prev
        }
    }
}

/// Handles the keys pressed in one frame while hotkey slot `slot` waits for a
/// key, as `capture_of` says: the captured key, if any, is bound to the slot
/// (as `HotkeyPrefs::set_hotkey` does); otherwise the bindings stay as they were.
pub fn listen_for_hotkey(prefs: &mut HotkeyPrefs, slot: usize, pressed: &[Key]) -> (r: KeyCapture)
    ensures
        r.captured == capture_of(pressed@).captured,
        r.stop_listening == capture_of(pressed@).stop_listening,
        r.keys_handled == capture_of(pressed@).keys_handled,
        final(prefs).use_ctrl == old(prefs).use_ctrl,
        final(prefs).use_shift == old(prefs).use_shift,
        final(prefs).use_alt == old(prefs).use_alt,
        r.captured matches Some(k) ==> (1 <= slot <= 9 ==> final(prefs).keys@ == old(
            prefs,
        ).keys@.update(slot - 1, k)),
        (r.captured is None || !(1 <= slot <= 9)) ==> final(prefs).keys@ == old(prefs).keys@,
{
    let mut r = KeyCapture { captured: None, stop_listening: false, keys_handled: 0 };
    let mut i: usize = 0;
    assert(pressed@.take(0) == Seq::<Key>::empty());
    while i < pressed.len()
        invariant
            i <= pressed@.len(),
            r.captured == capture_of(pressed@.take(i as int)).captured,
            r.stop_listening == capture_of(pressed@.take(i as int)).stop_listening,
            r.keys_handled == capture_of(pressed@.take(i as int)).keys_handled,
            r.keys_handled <= i,
            prefs.use_ctrl == old(prefs).use_ctrl,
            prefs.use_shift == old(prefs).use_shift,
            prefs.use_alt == old(prefs).use_alt,
            r.captured matches Some(k) ==> (1 <= slot <= 9 ==> prefs.keys@ == old(prefs).keys@.update(
                slot - 1,
                k,
            )),
            (r.captured is None || !(1 <= slot <= 9)) ==> prefs.keys@ == old(prefs).keys@,
        decreases pressed@.len() - i,
    {
        let k = pressed[i];
        assert(pressed@.take(i + 1).drop_last() == pressed@.take(i as int));
        assert(pressed@.take(i + 1).last() == k);
        if k == Key::Escape {
            r.stop_listening = true;
            r.keys_handled = r.keys_handled + 1;
        } else if !k.is_modifier() {
            prefs.set_hotkey(slot, k);
            r.captured = Some(k);
            r.stop_listening = true;
            r.keys_handled = r.keys_handled + 1;
        }
        i = i + 1;
    }
    assert(pressed@.take(pressed@.len() as int) == pressed@);
    r
}

/// The emotion shown after a hotkey with id `id` is pressed, where `ids` are
/// the ids of the registered slot hotkeys in slot order and the avatar has
/// `n` emotions: the last slot below `n` whose id matches, or the current
/// emotion when none does.
pub open spec fn emotion_after_hotkey(ids: Seq<u32>, id: u32, n: nat, current: nat) -> nat
    decreases ids.len(),
{
    if ids.len() == 0 {
        current
    } else {
        let k = ids.len() - 1;
        if k < n && ids[k] == id {
            k as nat
        } else {
            emotion_after_hotkey(ids.drop_last(), id, n, current)
        }
    }
}

/// Slots at or past the emotion count never change the emotion shown.
proof fn lemma_hotkey_tail(ids: Seq<u32>, id: u32, n: nat, current: nat, j: int)
    requires
        n <= j <= ids.len(),
    ensures
        emotion_after_hotkey(ids, id, n, current) == emotion_after_hotkey(ids.take(j), id, n, current),
    decreases ids.len(),
{
    if j < ids.len() {
        lemma_hotkey_tail(ids.drop_last(), id, n, current, j);
        assert(ids.drop_last().take(j) == ids.take(j));
    } else {
        assert(ids.take(j) == ids);
    }
}

/// The emotion to show after the hotkey with id `id` was pressed, as
/// `emotion_after_hotkey` says.
pub fn emotion_for_hotkey(ids: &[u32], id: u32, emotions: usize, current: usize) -> (r: usize)
    ensures
        r == emotion_after_hotkey(ids@, id, emotions as nat, current as nat),
{
    let mut r: usize = current;
    let mut i: usize = 0;
    assert(ids@.take(0) == Seq::<u32>::empty());
    while i < ids.len() && i < emotions
        invariant
            i <= ids@.len(),
            r == emotion_after_hotkey(ids@.take(i as int), id, emotions as nat, current as nat),
        decreases ids@.len() - i,
    {
        assert(ids@.take(i + 1).drop_last() == ids@.take(i as int));
        if ids[i] == id {
            r = i;
        }
        i = i + 1;
    }
    proof {
        if i < ids@.len() {
            lemma_hotkey_tail(ids@, id, emotions as nat, current as nat, i as int);
        } else {
            assert(ids@.take(i as int) == ids@);
        }
    }
    r
}

/// A hotkey press either keeps the current emotion or picks one the avatar has.
pub proof fn lemma_hotkey_emotion_in_range(ids: Seq<u32>, id: u32, n: nat, current: nat)
    ensures
        emotion_after_hotkey(ids, id, n, current) == current || emotion_after_hotkey(ids, id, n, current) < n,
    decreases ids.len(),
{
    if ids.len() > 0 {
        lemma_hotkey_emotion_in_range(ids.drop_last(), id, n, current);
    }
}

/// One more key pressed while a slot waits: Escape stops the waiting and keeps
/// what was captured so far; the six shift, control and alt keys change
/// nothing; every other key is captured, stops the waiting, and is counted.
pub proof fn lemma_capture_next_key(pressed: Seq<Key>, k: Key)
    ensures
        k == Key::Escape ==> capture_of(pressed.push(k)).captured == capture_of(pressed).captured
            && capture_of(pressed.push(k)).stop_listening && capture_of(pressed.push(k)).keys_handled
            == capture_of(pressed).keys_handled + 1,
        (k == Key::LeftShift || k == Key::RightShift || k == Key::LeftControl || k == Key::RightControl
            || k == Key::LeftAlt || k == Key::RightAlt) ==> capture_of(pressed.push(k)) == capture_of(pressed),
        (k != Key::Escape && k != Key::LeftShift && k != Key::RightShift && k != Key::LeftControl && k
            != Key::RightControl && k != Key::LeftAlt && k != Key::RightAlt) ==> capture_of(pressed.push(k)).captured
            == Some(k) && capture_of(pressed.push(k)).stop_listening && capture_of(pressed.push(k)).keys_handled
            == capture_of(pressed).keys_handled + 1,
{
    assert(pressed.push(k).drop_last() == pressed);
}

/// A single key pressed while a slot waits: Escape cancels, capturing nothing;
/// shift, control and alt are skipped; any other key is the slot's new key.
pub proof fn lemma_capture_single_key(k: Key)
    ensures
        k == Key::Escape ==> capture_of(seq![k]) == (CaptureModel {
            captured: None,
            stop_listening: true,
            keys_handled: 1,
        }),
        (k == Key::LeftShift || k == Key::RightShift || k == Key::LeftControl || k == Key::RightControl
            || k == Key::LeftAlt || k == Key::RightAlt) ==> capture_of(seq![k]) == (CaptureModel {
            captured: None,
            stop_listening: false,
            keys_handled: 0,
        }),
        (k != Key::Escape && k != Key::LeftShift && k != Key::RightShift && k != Key::LeftControl && k
            != Key::RightControl && k != Key::LeftAlt && k != Key::RightAlt) ==> capture_of(seq![k]) == (
        CaptureModel { captured: Some(k), stop_listening: true, keys_handled: 1 }),
{
    let e = Seq::<Key>::empty();
    assert(e.push(k) == seq![k]);
    lemma_capture_next_key(e, k);
}

/// The emotion after a hotkey press is that of the last slot, below the
/// emotion count, whose id is the pressed one: when slot `j` matches and no
/// later slot below the count does, slot `j`'s emotion is shown.
pub proof fn lemma_hotkey_picks_last_matching_slot(ids: Seq<u32>, id: u32, n: nat, current: nat, j: int)
    requires
        0 <= j < ids.len(),
        j < n,
        ids[j] == id,
        forall|k: int| j < k < ids.len() && k < n ==> ids[k] != id,
    ensures
        emotion_after_hotkey(ids, id, n, current) == j,
    decreases ids.len(),
{
    if j < ids.len() - 1 {
        lemma_hotkey_picks_last_matching_slot(ids.drop_last(), id, n, current, j);
    }
}

/// When no slot below the emotion count has the pressed id, the current
/// emotion stays.
pub proof fn lemma_hotkey_without_match_keeps_emotion(ids: Seq<u32>, id: u32, n: nat, current: nat)
    requires
        forall|k: int| 0 <= k < ids.len() && k < n ==> ids[k] != id,
    ensures
        emotion_after_hotkey(ids, id, n, current) == current,
    decreases ids.len(),
{
    if ids.len() > 0 {
        lemma_hotkey_without_match_keeps_emotion(ids.drop_last(), id, n, current);
    }
}

/// A captured key is never Escape, shift, control or alt, and capturing a key
/// always stops the waiting.
pub proof fn lemma_captured_key_is_plain(pressed: Seq<Key>)
    ensures
        capture_of(pressed).captured matches Some(k) ==> k != Key::Escape && !is_modifier_key(k)
            && capture_of(pressed).stop_listening,
    decreases pressed.len(),
{
    if pressed.len() > 0 {
        lemma_captured_key_is_plain(pressed.drop_last());
    }
}

/// The screen the program shows: the avatar picker, the avatar with the given
/// index in the sorted avatar list, or the settings (remembering the avatar to
/// go back to, if any).
#[derive(Clone, Copy, Debug, PartialEq, Eq, Structural)]
pub enum Screen {
    Select,
    Main(usize),
    Settings(Option<usize>),
}

/// A button pressed on a screen.
#[derive(Clone, Copy, Debug, PartialEq, Eq, Structural)]
pub enum ScreenEvent {
    /// An avatar was picked in the picker.
    PickAvatar(usize),
    /// The settings button.
    OpenSettings,
    /// The back button.
    Back,
}

/// The next screen, and what has to be done on the way.
#[derive(Clone, Copy, Debug, PartialEq, Eq, Structural)]
pub struct ScreenStep {
    pub screen: Screen,
    /// Show the first emotion and the on-screen controls.
    pub reset_view: bool,
    /// Write the settings file and register the hotkeys anew.
    pub save_settings: bool,
}

/// How the screens follow each other: picking an avatar shows it from its
/// first emotion; the settings button opens the settings, remembering the
/// avatar shown; leaving the settings saves them and returns to the
/// remembered avatar, or to the picker; back from an avatar returns to the
/// picker. A button that a screen does not have changes nothing.
pub open spec fn next_screen(s: Screen, e: ScreenEvent) -> ScreenStep {
    match (s, e) {
        (Screen::Select, ScreenEvent::PickAvatar(a)) => ScreenStep {
            screen: Screen::Main(a),
            reset_view: true,
            save_settings: false,
        },
        (Screen::Select, ScreenEvent::OpenSettings) => ScreenStep {
            screen: Screen::Settings(None),
            reset_view: false,
            save_settings: false,
        },
        (Screen::Main(a), ScreenEvent::OpenSettings) => ScreenStep {
            screen: Screen::Settings(Some(a)),
            reset_view: false,
            save_settings: false,
        },
        (Screen::Main(_), ScreenEvent::Back) => ScreenStep {
            screen: Screen::Select,
            reset_view: false,
            save_settings: false,
        },
        (Screen::Settings(back_to), ScreenEvent::Back) => ScreenStep {
            screen: match back_to {
                Some(a) => Screen::Main(a),
                None => Screen::Select,
            },
            reset_view: false,
            save_settings: true,
        },
        _ => ScreenStep { screen: s, reset_view: false, save_settings: false },
    }
}

/// The next screen after a button press, as `next_screen` says.
pub fn screen_step(s: Screen, e: ScreenEvent) -> (r: ScreenStep)
    ensures
        r == next_screen(s, e),
{
    match (s, e) {
        (Screen::Select, ScreenEvent::PickAvatar(a)) => ScreenStep {
            screen: Screen::Main(a),
            reset_view: true,
            save_settings: false,
        },
        (Screen::Select, ScreenEvent::OpenSettings) => ScreenStep {
            screen: Screen::Settings(None),
            reset_view: false,
            save_settings: false,
        },
        (Screen::Main(a), ScreenEvent::OpenSettings) => ScreenStep {
            screen: Screen::Settings(Some(a)),
            reset_view: false,
            save_settings: false,
        },
        (Screen::Main(_), ScreenEvent::Back) => ScreenStep {
            screen: Screen::Select,
            reset_view: false,
            save_settings: false,
        },
        (Screen::Settings(back_to), ScreenEvent::Back) => ScreenStep {
            screen: match back_to {
                Some(a) => Screen::Main(a),
                None => Screen::Select,
            },
            reset_view: false,
            save_settings: true,
        },
        _ => ScreenStep { screen: s, reset_view: false, save_settings: false },
    }
}

/// Opening the settings from a screen and going back returns to that screen
/// (the picker or the same avatar) and saves the settings on the way out.
pub proof fn lemma_settings_round_trip(s: Screen)
    requires
        s matches Screen::Select || s matches Screen::Main(_),
    ensures
        next_screen(next_screen(s, ScreenEvent::OpenSettings).screen, ScreenEvent::Back).screen == s,
        next_screen(next_screen(s, ScreenEvent::OpenSettings).screen, ScreenEvent::Back).save_settings,
{
}

/// Only picking an avatar in the picker shows the first emotion and the
/// controls anew; every other step keeps the view as it was.
pub proof fn lemma_reset_only_when_picking(s: Screen, e: ScreenEvent)
    ensures
        next_screen(s, e).reset_view <==> (s == Screen::Select && e matches ScreenEvent::PickAvatar(_)),
        s == Screen::Select ==> (e matches ScreenEvent::PickAvatar(a) ==> next_screen(s, e).screen
            == Screen::Main(a)),
{
}

/// Back from an avatar returns to the picker, and a button that a screen does
/// not have (back in the picker, picking while an avatar or the settings are
/// shown, the settings button in the settings) changes nothing.
pub proof fn lemma_back_and_missing_buttons(s: Screen, e: ScreenEvent)
    ensures
        s matches Screen::Main(_) && e == ScreenEvent::Back ==> next_screen(s, e).screen == Screen::Select,
        (s == Screen::Select && e == ScreenEvent::Back) || (!(s == Screen::Select) && e matches ScreenEvent::PickAvatar(_))
            || (s matches Screen::Settings(_) && e == ScreenEvent::OpenSettings) ==> next_screen(s, e) == (
        ScreenStep { screen: s, reset_view: false, save_settings: false }),
{
}

/// Every way out of the settings screen saves the settings, and no other step does.
pub proof fn lemma_save_exactly_when_leaving_settings(s: Screen, e: ScreenEvent)
    ensures
        next_screen(s, e).save_settings <==> (s matches Screen::Settings(_) && next_screen(s, e).screen != s),
{
}

} // verus!
