use vstd::prelude::*;

use crate::binding::{hotkey_id, new_hotkey, HotkeyBinding};
use crate::chars::{append_chars, chars_of, join_with, split_chars, split_on, string_of, views};
use crate::keys::{hotkey_code, key_code, key_for_code, Key};
use crate::number::{decimal, decimal_chars, parse_u16, parse_unsigned};

verus! {

/// The number of emotion hotkey slots.
pub const HOTKEY_SLOTS: usize = 9;

/// The number of lines the settings file needs: two thresholds, three modifier
/// flags and one line per hotkey slot.
pub const SETTINGS_LINES: usize = 14;

/// How the emotion hotkeys are bound: the modifiers that must be held, and the
/// key of each of the nine slots (slot 1 first).
#[derive(Clone, Copy, Debug)]
pub struct HotkeyPrefs {
    pub use_ctrl: bool,
    pub use_shift: bool,
    pub use_alt: bool,
    pub keys: [Key; 9],
}

/// What the settings file holds. The two thresholds are kept as the text that
/// stands for them in the file (a decimal fraction each), since this library
/// holds no floating-point values.
#[derive(Debug)]
pub struct SettingsFile {
    pub thresh: String,
    pub coyote_time: String,
    pub prefs: HotkeyPrefs,
}

/// The abstract content of a settings file.
pub struct SettingsModel {
    pub thresh: Seq<char>,
    pub coyote_time: Seq<char>,
    pub use_ctrl: bool,
    pub use_shift: bool,
    pub use_alt: bool,
    pub keys: Seq<Key>,
}

impl View for SettingsFile {
    type V = SettingsModel;

    open spec fn view(&self) -> SettingsModel {
        SettingsModel {
            thresh: self.thresh@,
            coyote_time: self.coyote_time@,
            use_ctrl: self.prefs.use_ctrl,
            use_shift: self.prefs.use_shift,
            use_alt: self.prefs.use_alt,
            keys: self.prefs.keys@,
        }
    }
}

/// Why a settings file could not be read.
#[derive(Clone, Copy, Debug, PartialEq, Eq, Structural)]
pub enum SettingsError {
    /// The file has fewer than fourteen lines.
    TooFewLines,
    /// The hotkey line with this index (counted from 0) is not a `u16`.
    NotANumber { line: usize },
    /// The hotkey line with this index holds a number that is no key's code.
    UnknownKeyCode { line: usize, code: u16 },
}

/// The text of a flag in the settings file.
pub open spec fn flag_text(b: bool) -> Seq<char> {
    if b {
        seq!['t', 'r', 'u', 'e']
    } else {
        seq!['f', 'a', 'l', 's', 'e']
    }
}

/// The lines of the settings file for `m`, in order.
pub open spec fn settings_lines(m: SettingsModel) -> Seq<Seq<char>> {
    seq![m.thresh, m.coyote_time, flag_text(m.use_ctrl), flag_text(m.use_shift), flag_text(m.use_alt)]
        + Seq::new(9, |i: int| decimal(key_code(m.keys[i]) as nat))
}

/// The text of the settings file for `m`: its lines joined by newlines, with
/// no newline at the end.
pub open spec fn settings_text(m: SettingsModel) -> Seq<char> {
    join_with(settings_lines(m), '\n')
}

/// The keys named by the hotkey lines `from..14`, or the first line that names none.
pub open spec fn parse_key_lines(lines: Seq<Seq<char>>, from: int) -> Result<Seq<Key>, SettingsError>
    decreases 14 - from,
{
    if from >= 14 || from < 0 {
        Ok(Seq::<Key>::empty())
    } else {
        match parse_unsigned(lines[from], 10, 0xffff) {
            None => Err(SettingsError::NotANumber { line: from as usize }),
            Some(c) => match key_for_code(c as u16) {
                None => Err(SettingsError::UnknownKeyCode { line: from as usize, code: c as u16 }),
                Some(k) => match parse_key_lines(lines, from + 1) {
                    Ok(rest) => Ok(seq![k] + rest),
                    Err(e) => Err(e),
                },
            },
        }
    }
}

/// What reading the settings text `text` gives: its lines are split at
/// newlines; with fewer than fourteen lines there are no settings; otherwise
/// lines 0 and 1 are the thresholds, lines 2 to 4 are flags that are set
/// exactly when they read `true`, and lines 5 to 13 are key codes. Lines after
/// the fourteenth are ignored.
pub open spec fn parse_settings_text(text: Seq<char>) -> Result<SettingsModel, SettingsError> {
    let lines = split_on(text, '\n');
    if lines.len() < 14 {
        Err(SettingsError::TooFewLines)
    } else {
        match parse_key_lines(lines, 5) {
            Err(e) => Err(e),
            Ok(keys) => Ok(
                SettingsModel {
                    thresh: lines[0],
                    coyote_time: lines[1],
                    use_ctrl: lines[2] == flag_text(true),
                    use_shift: lines[3] == flag_text(true),
                    use_alt: lines[4] == flag_text(true),
                    keys,
                },
            ),
        }
    }
}

/// The slot keys `from..9` of `m` read back from their lines.
proof fn lemma_key_lines_roundtrip(m: SettingsModel, from: int)
    requires
        m.keys.len() == 9,
        5 <= from <= 14,
    ensures
        parse_key_lines(settings_lines(m), from) == Ok::<Seq<Key>, SettingsError>(m.keys.subrange(from - 5, 9)),
    decreases 14 - from,
{
    if from < 14 {
        let lines = settings_lines(m);
        let k = m.keys[from - 5];
        assert(lines[from] == decimal(key_code(k) as nat));
        crate::number::lemma_parse_decimal(key_code(k) as nat, 0xffff);
        crate::keys::lemma_key_for_own_code(k);
        lemma_key_lines_roundtrip(m, from + 1);
        assert(seq![k] + m.keys.subrange(from - 4, 9) == m.keys.subrange(from - 5, 9));
    } else {
        assert(m.keys.subrange(9, 9) == Seq::<Key>::empty());
    }
}

/// Reading back what was written gives the same settings, provided the two
/// threshold texts hold no newline.
pub proof fn lemma_settings_roundtrip(m: SettingsModel)
    requires
        m.keys.len() == 9,
        !m.thresh.contains('\n'),
        !m.coyote_time.contains('\n'),
    ensures
        parse_settings_text(settings_text(m)) == Ok::<SettingsModel, SettingsError>(m),
{
    let lines = settings_lines(m);
    assert forall|i: int| 0 <= i < lines.len() implies !(#[trigger] lines[i]).contains('\n') by {
        if i >= 5 {
            let d = decimal(key_code(m.keys[i - 5]) as nat);
            assert(lines[i] == d);
            crate::number::lemma_decimal_digits(key_code(m.keys[i - 5]) as nat);
            if d.contains('\n') {
                let j = choose|j: int| 0 <= j < d.len() && d[j] == '\n';
                assert(crate::number::digit_value(d[j], 10) is Some);
            }
        } else if i >= 2 {
            let f = lines[i];
            if f.contains('\n') {
                let j = choose|j: int| 0 <= j < f.len() && f[j] == '\n';
            }
        }
    }
    crate::chars::lemma_split_join(lines, '\n');
    lemma_key_lines_roundtrip(m, 5);
    assert(m.keys.subrange(0, 9) == m.keys);
    assert(flag_text(true) != flag_text(false));
}

/// The text of a flag, as characters.
fn flag_chars(b: bool) -> (r: Vec<char>)
    ensures
        r@ == flag_text(b),
{
    if b {
        vec!['t', 'r', 'u', 'e']
    } else {
        vec!['f', 'a', 'l', 's', 'e']
    }
}

impl HotkeyPrefs {
    /// The bindings used when there is no settings file: shift and alt held,
    /// and the digit keys 1 to 9 for the nine slots.
    pub fn default_prefs() -> (p: HotkeyPrefs)
        ensures
            !p.use_ctrl,
            p.use_shift,
            p.use_alt,
            p.keys@ == seq![
                Key::Key1, Key::Key2, Key::Key3, Key::Key4, Key::Key5,
                Key::Key6, Key::Key7, Key::Key8, Key::Key9,
            ],
    {
        let p = HotkeyPrefs {
            use_ctrl: false,
            use_shift: true,
            use_alt: true,
            keys: [
                Key::Key1, Key::Key2, Key::Key3, Key::Key4, Key::Key5,
                Key::Key6, Key::Key7, Key::Key8, Key::Key9,
            ],
        };
        assert(p.keys@ =~= seq![
            Key::Key1, Key::Key2, Key::Key3, Key::Key4, Key::Key5,
            Key::Key6, Key::Key7, Key::Key8, Key::Key9,
        ]);
        p
    }

    /// Binds `k` to the hotkey slot numbered `slot` (1 to 9); any other slot
    /// number changes nothing.
    pub fn set_hotkey(&mut self, slot: usize, k: Key)
        ensures
            final(self).use_ctrl == old(self).use_ctrl,
            final(self).use_shift == old(self).use_shift,
            final(self).use_alt == old(self).use_alt,
            1 <= slot <= 9 ==> final(self).keys@ == old(self).keys@.update(slot - 1, k),
            !(1 <= slot <= 9) ==> final(self).keys@ == old(self).keys@,
    {
        if 1 <= slot && slot <= 9 {
            self.keys[slot - 1] = k;
        }
    }

    /// The hotkeys of the nine slots, slot 1 first: each built from the
    /// slot's key at its hotkey position with the modifiers held as the flags
    /// say, with the id under which its presses are reported.
    pub fn hotkey_bindings(&self) -> (r: Vec<HotkeyBinding>)
        ensures
            r@.len() == 9,
            forall|i: int|
                0 <= i < 9 ==> (#[trigger] r@[i]).source() == (
                    self.use_ctrl,
                    self.use_shift,
                    self.use_alt,
                    hotkey_code(self.keys@[i]),
                ),
            forall|i: int|
                0 <= i < 9 ==> (#[trigger] r@[i]).spec_id() == hotkey_id(
                    self.use_ctrl,
                    self.use_shift,
                    self.use_alt,
                    hotkey_code(self.keys@[i]),
                ),
    {
        let mut r: Vec<HotkeyBinding> = Vec::new();
        let mut i: usize = 0;
        while i < 9
            invariant
                i <= 9,
                r@.len() == i,
                forall|j: int|
                    0 <= j < i ==> (#[trigger] r@[j]).source() == (
                        self.use_ctrl,
                        self.use_shift,
                        self.use_alt,
                        hotkey_code(self.keys@[j]),
                    ),
                forall|j: int|
                    0 <= j < i ==> (#[trigger] r@[j]).spec_id() == hotkey_id(
                        self.use_ctrl,
                        self.use_shift,
                        self.use_alt,
                        hotkey_code(self.keys@[j]),
                    ),
            decreases 9 - i,
        {
            let code = crate::keys::mq_key_to_global_hotkey(self.keys[i]);
            r.push(new_hotkey(self.use_ctrl, self.use_shift, self.use_alt, code));
            i = i + 1;
        }
        r
    }
}

impl SettingsFile {
    /// The text of the settings file, as `settings_text` says.
    pub fn to_text(&self) -> (s: String)
        ensures
            s@ == settings_text(self@),
    {
        let m = Ghost(self@);
        let ghost lines = settings_lines(m@);
        proof {
            crate::chars::lemma_join_step(lines, '\n', 1);
            crate::chars::lemma_join_step(lines, '\n', 2);
            crate::chars::lemma_join_step(lines, '\n', 3);
            crate::chars::lemma_join_step(lines, '\n', 4);
        }
        let mut out: Vec<char> = chars_of(self.thresh.as_str());
        assert(out@ == join_with(lines.take(1), '\n'));
        out.push('\n');
        let coyote = chars_of(self.coyote_time.as_str());
        append_chars(&mut out, &coyote);
        assert(out@ == join_with(lines.take(2), '\n'));
        out.push('\n');
        let f = flag_chars(self.prefs.use_ctrl);
        append_chars(&mut out, &f);
        assert(out@ == join_with(lines.take(3), '\n'));
        out.push('\n');
        let f = flag_chars(self.prefs.use_shift);
        append_chars(&mut out, &f);
        assert(out@ == join_with(lines.take(4), '\n'));
        out.push('\n');
        let f = flag_chars(self.prefs.use_alt);
        append_chars(&mut out, &f);
        assert(out@ == join_with(lines.take(5), '\n'));
        let mut i: usize = 0;
        while i < 9
            invariant
                i <= 9,
                m@ == self@,
                lines == settings_lines(m@),
                self.prefs.keys@.len() == 9,
                out@ == join_with(lines.take(5 + i), '\n'),
            decreases 9 - i,
        {
            out.push('\n');
            let code = self.prefs.keys[i].code();
            let d = decimal_chars(code as u64);
            append_chars(&mut out, &d);
            proof {
                crate::chars::lemma_join_step(lines, '\n', 5 + i);
            }
            i = i + 1;
        }
        assert(lines.take(14) == lines);
        string_of(&out)
    }

    /// Reads settings from the text of the settings file, as
    /// `parse_settings_text` says.
    pub fn from_text(text: &str) -> (r: Result<SettingsFile, SettingsError>)
        ensures
            r matches Ok(f) ==> parse_settings_text(text@) == Ok::<SettingsModel, SettingsError>(f@) && f.prefs.keys@.len() == 9,
            r matches Err(e) ==> parse_settings_text(text@) == Err::<SettingsModel, SettingsError>(e),
    {
        let cs = chars_of(text);
        let lines = split_chars(&cs, '\n');
        let ghost ls = split_on(text@, '\n');
        assert(views(lines@) == ls);
        assert(lines@.len() == ls.len());
        assert(forall|i: int| 0 <= i < lines@.len() ==> #[trigger] lines@[i]@ == ls[i]);
        if lines.len() < SETTINGS_LINES {
            return Err(SettingsError::TooFewLines);
        }
        let mut keys: [Key; 9] = [Key::Unknown; 9];
        let mut i: usize = 5;
        while i < 14
            invariant
                5 <= i <= 14,
                lines@.len() >= 14,
                ls == split_on(text@, '\n'),
                lines@.len() == ls.len(),
                forall|j: int| 0 <= j < lines@.len() ==> #[trigger] lines@[j]@ == ls[j],
                keys@.len() == 9,
                parse_key_lines(ls, 5) == (match parse_key_lines(ls, i as int) {
                    Ok(rest) => Ok(keys@.take(i - 5) + rest),
                    Err(e) => Err(e),
                }),
            decreases 14 - i,
        {
            let line = &lines[i];
            let num = parse_u16(line.as_slice());
            match num {
                None => {
                    assert(line@ == ls[i as int]);
                    assert(parse_key_lines(ls, i as int) == Err::<Seq<Key>, SettingsError>(
                        SettingsError::NotANumber { line: i },
                    ));
                    return Err(SettingsError::NotANumber { line: i });
                },
                Some(c) => {
                    let found = Key::from_code(c);
                    proof {
                        crate::keys::lemma_from_code_is_lookup(c, found);
                    }
                    match found {
                        None => {
                            return Err(SettingsError::UnknownKeyCode { line: i, code: c });
                        },
                        Some(k) => {
                            let ghost before = keys@;
                            keys[i - 5] = k;
                            assert(keys@.take(i - 4) == before.take(i - 5).push(k));
                            proof {
                                match parse_key_lines(ls, i + 1) {
                                    Ok(rest) => {
                                        assert(before.take(i - 5) + (seq![k] + rest)
                                            == keys@.take(i - 4) + rest);
                                    },
                                    Err(e) => {},
                                }
                            }
                        },
                    }
                },
            }
            i = i + 1;
        }
        assert(keys@.take(9) == keys@);
        assert(parse_key_lines(ls, 14) == Ok::<Seq<Key>, SettingsError>(Seq::<Key>::empty()));
        assert(keys@ + Seq::<Key>::empty() == keys@);
        let thresh = string_of(lines[0].as_slice());
        let coyote_time = string_of(lines[1].as_slice());
        let use_ctrl = is_true_line(&lines[2]);
        let use_shift = is_true_line(&lines[3]);
        let use_alt = is_true_line(&lines[4]);
        Ok(SettingsFile { thresh, coyote_time, prefs: HotkeyPrefs { use_ctrl, use_shift, use_alt, keys } })
    }
}

/// Whether a line reads `true`.
fn is_true_line(line: &Vec<char>) -> (r: bool)
    ensures
        r == (line@ == flag_text(true)),
{
    let r = line.len() == 4 && line[0] == 't' && line[1] == 'r' && line[2] == 'u' && line[3] == 'e';
    if r {
        assert(line@ =~= flag_text(true));
    }
    r
}

} // verus!
