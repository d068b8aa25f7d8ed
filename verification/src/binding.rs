use std::str::FromStr;

use global_hotkey::hotkey::{Code, HotKey, Modifiers};
use vstd::prelude::*;

use crate::keys::HotkeyCode;

verus! {

#[verifier::external_type_specification]
#[verifier::external_body]
pub struct ExHotKey(HotKey);

/// The number of the key position `code` in the hotkey service's key type,
/// `keyboard_types::Code`: the place of the variant of the same name in that
/// enum, counted from 0 (it declares no discriminants).
pub open spec fn code_number(code: HotkeyCode) -> int {
    match code {
        HotkeyCode::Space => 62,
        HotkeyCode::Quote => 47,
        HotkeyCode::Comma => 4,
        HotkeyCode::Minus => 45,
        HotkeyCode::Period => 46,
        HotkeyCode::Slash => 49,
        HotkeyCode::Digit0 => 5,
        HotkeyCode::Digit1 => 6,
        HotkeyCode::Digit2 => 7,
        HotkeyCode::Digit3 => 8,
        HotkeyCode::Digit4 => 9,
        HotkeyCode::Digit5 => 10,
        HotkeyCode::Digit6 => 11,
        HotkeyCode::Digit7 => 12,
        HotkeyCode::Digit8 => 13,
        HotkeyCode::Digit9 => 14,
        HotkeyCode::Semicolon => 48,
        HotkeyCode::Equal => 15,
        HotkeyCode::KeyA => 19,
        HotkeyCode::KeyB => 20,
        HotkeyCode::KeyC => 21,
        HotkeyCode::KeyD => 22,
        HotkeyCode::KeyE => 23,
        HotkeyCode::KeyF => 24,
        HotkeyCode::KeyG => 25,
        HotkeyCode::KeyH => 26,
        HotkeyCode::KeyI => 27,
        HotkeyCode::KeyJ => 28,
        HotkeyCode::KeyK => 29,
        HotkeyCode::KeyL => 30,
        HotkeyCode::KeyM => 31,
        HotkeyCode::KeyN => 32,
        HotkeyCode::KeyO => 33,
        HotkeyCode::KeyP => 34,
        HotkeyCode::KeyQ => 35,
        HotkeyCode::KeyR => 36,
        HotkeyCode::KeyS => 37,
        HotkeyCode::KeyT => 38,
        HotkeyCode::KeyU => 39,
        HotkeyCode::KeyV => 40,
        HotkeyCode::KeyW => 41,
        HotkeyCode::KeyX => 42,
        HotkeyCode::KeyY => 43,
        HotkeyCode::KeyZ => 44,
        HotkeyCode::BracketLeft => 2,
        HotkeyCode::Backslash => 1,
        HotkeyCode::BracketRight => 3,
        HotkeyCode::Backquote => 0,
        HotkeyCode::Unidentified => 159,
        HotkeyCode::Escape => 114,
        HotkeyCode::Enter => 57,
        HotkeyCode::Tab => 63,
        HotkeyCode::Backspace => 52,
        HotkeyCode::Insert => 76,
        HotkeyCode::Delete => 72,
        HotkeyCode::ArrowRight => 81,
        HotkeyCode::ArrowLeft => 80,
        HotkeyCode::ArrowDown => 79,
        HotkeyCode::ArrowUp => 82,
        HotkeyCode::PageUp => 78,
        HotkeyCode::PageDown => 77,
        HotkeyCode::Home => 75,
        HotkeyCode::End => 73,
        HotkeyCode::CapsLock => 53,
        HotkeyCode::ScrollLock => 118,
        HotkeyCode::NumLock => 83,
        HotkeyCode::PrintScreen => 117,
        HotkeyCode::Pause => 119,
        HotkeyCode::F1 => 160,
        HotkeyCode::F2 => 161,
        HotkeyCode::F3 => 162,
        HotkeyCode::F4 => 163,
        HotkeyCode::F5 => 164,
        HotkeyCode::F6 => 165,
        HotkeyCode::F7 => 166,
        HotkeyCode::F8 => 167,
        HotkeyCode::F9 => 168,
        HotkeyCode::F10 => 169,
        HotkeyCode::F11 => 170,
        HotkeyCode::F12 => 171,
        HotkeyCode::F13 => 172,
        HotkeyCode::F14 => 173,
        HotkeyCode::F15 => 174,
        HotkeyCode::F16 => 175,
        HotkeyCode::F17 => 176,
        HotkeyCode::F18 => 177,
        HotkeyCode::F19 => 178,
        HotkeyCode::F20 => 179,
        HotkeyCode::F21 => 180,
        HotkeyCode::F22 => 181,
        HotkeyCode::F23 => 182,
        HotkeyCode::F24 => 183,
        HotkeyCode::F25 => 184,
        HotkeyCode::Numpad0 => 84,
        HotkeyCode::Numpad1 => 85,
        HotkeyCode::Numpad2 => 86,
        HotkeyCode::Numpad3 => 87,
        HotkeyCode::Numpad4 => 88,
        HotkeyCode::Numpad5 => 89,
        HotkeyCode::Numpad6 => 90,
        HotkeyCode::Numpad7 => 91,
        HotkeyCode::Numpad8 => 92,
        HotkeyCode::Numpad9 => 93,
        HotkeyCode::NumpadDecimal => 99,
        HotkeyCode::NumpadDivide => 100,
        HotkeyCode::NumpadMultiply => 109,
        HotkeyCode::NumpadSubtract => 113,
        HotkeyCode::NumpadAdd => 94,
        HotkeyCode::NumpadEnter => 101,
        HotkeyCode::NumpadEqual => 102,
        HotkeyCode::ShiftLeft => 60,
        HotkeyCode::ControlLeft => 55,
        HotkeyCode::AltLeft => 50,
        HotkeyCode::Super => 143,
        HotkeyCode::ShiftRight => 61,
        HotkeyCode::ControlRight => 56,
        HotkeyCode::AltRight => 51,
        HotkeyCode::ContextMenu => 54,
    }
}

/// The modifier bits of the hotkey service (`keyboard_types::Modifiers`) for
/// control (`0x8`), shift (`0x200`) and alt (`0x1`), each where it is held.
pub open spec fn modifier_bits(use_ctrl: bool, use_shift: bool, use_alt: bool) -> int {
    (if use_ctrl { 0x8int } else { 0 }) + (if use_shift { 0x200int } else { 0 }) + (if use_alt {
        0x1int
    } else {
        0
    })
}

/// The id under which the hotkey service reports presses of the key at
/// position `code` while control, shift and alt are held as the flags say:
/// the modifier bits in the upper sixteen bits, the key's number in the lower.
pub open spec fn hotkey_id(use_ctrl: bool, use_shift: bool, use_alt: bool, code: HotkeyCode) -> int {
    modifier_bits(use_ctrl, use_shift, use_alt) * 0x10000 + code_number(code)
}

/// A hotkey to register with the hotkey service, the id its presses are
/// reported under, and (for proofs) the modifier flags and key position it
/// was built from. Only `new_hotkey` builds one.
pub struct HotkeyBinding {
    hotkey: HotKey,
    id: u32,
    built_from: Ghost<(bool, bool, bool, HotkeyCode)>,
}

impl HotkeyBinding {
    /// The control, shift and alt flags and the key position this hotkey was
    /// built from.
    pub closed spec fn source(&self) -> (bool, bool, bool, HotkeyCode) {
        self.built_from@
    }

    /// The id of this hotkey's presses.
    pub closed spec fn spec_id(&self) -> u32 {
        self.id
    }

    /// The id under which presses of this hotkey are reported.
    pub fn id(&self) -> (r: u32)
        ensures
            r == self.spec_id(),
    {
        self.id
    }

    /// The hotkey to register with the service: the one `new_hotkey` built,
    /// whose own `id` is `id()`. The hotkey type is opaque to the proofs, so
    /// no clause states that.
    pub fn hotkey(&self) -> HotKey {
        self.hotkey
    }
}

/// Builds a hotkey for the key at position `code` with the given modifiers.
///
/// Trusted: calls `global_hotkey::hotkey::HotKey::new` with the modifier set
/// that holds exactly `CONTROL`, `SHIFT` and `ALT` as the flags say and the
/// `Code` whose name is the name of `code`, and returns that hotkey with its
/// `id` field, recording the four arguments it was built from. `HotKey::new`
/// computes the id as `(mods.bits() << 16) | key as u32`; the contract states
/// that value, `hotkey_id` of the arguments (the bits are below `0x10000` and
/// the key's number below `0x10000`, so the shift and the `|` are a product
/// and a sum). The hotkey value itself is opaque: that it is the one
/// `HotKey::new` gives for the recorded arguments, and so that its own `id`
/// is the binding's id, is what this function's body shows, and no clause
/// states it.
#[verifier::external_body]
pub(crate) fn new_hotkey(use_ctrl: bool, use_shift: bool, use_alt: bool, code: HotkeyCode) -> (b: HotkeyBinding)
    ensures
        b.source() == (use_ctrl, use_shift, use_alt, code),
        b.spec_id() == hotkey_id(use_ctrl, use_shift, use_alt, code),
{
    let mut mods = Modifiers::empty();
    mods.set(Modifiers::CONTROL, use_ctrl);
    mods.set(Modifiers::SHIFT, use_shift);
    mods.set(Modifiers::ALT, use_alt);
    let key = Code::from_str(&format!("{:?}", code)).expect("every position is named as the service names it");
    let hotkey = HotKey::new(Some(mods), key);
    HotkeyBinding { hotkey, id: hotkey.id, built_from: Ghost((use_ctrl, use_shift, use_alt, code)) }
}

/// A key position's number fits in the lower sixteen bits of an id, and no
/// two positions share a number.
pub proof fn lemma_code_number_injective(a: HotkeyCode, b: HotkeyCode)
    ensures
        0 <= code_number(a) < 0x10000,
        code_number(a) == code_number(b) ==> a == b,
{
}

/// Two hotkeys get the same id only when they were built from the same
/// modifier flags and the same key position: presses of distinct hotkeys are
/// never confused.
pub proof fn lemma_hotkey_ids_distinct(
    use_ctrl: bool,
    use_shift: bool,
    use_alt: bool,
    code: HotkeyCode,
    other_ctrl: bool,
    other_shift: bool,
    other_alt: bool,
    other_code: HotkeyCode,
)
    ensures
        hotkey_id(use_ctrl, use_shift, use_alt, code) == hotkey_id(other_ctrl, other_shift, other_alt, other_code)
            <==> (use_ctrl, use_shift, use_alt, code) == (other_ctrl, other_shift, other_alt, other_code),
{
    lemma_code_number_injective(code, other_code);
    lemma_code_number_injective(other_code, code);
    let m = modifier_bits(use_ctrl, use_shift, use_alt);
    let n = modifier_bits(other_ctrl, other_shift, other_alt);
    let k = code_number(code);
    let l = code_number(other_code);
    if m * 0x10000 + k == n * 0x10000 + l {
        assert(m == n && k == l) by (nonlinear_arith)
            requires
                m * 0x10000 + k == n * 0x10000 + l,
                0 <= k < 0x10000,
                0 <= l < 0x10000,
        ;
    }
}

} // verus!
