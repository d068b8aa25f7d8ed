use vstd::prelude::*;

use crate::chars::{
    append_chars, chars_of, replace_all, replace_all_chars, split_chars, split_on, starts_with, starts_with_chars,
    string_of, views,
};
use crate::number::{decimal, decimal_chars, parse_hex_u32, parse_unsigned};

verus! {

/// The background colour of an avatar whose configuration gives none: pure green.
pub open spec fn default_background() -> Seq<char> {
    seq!['0', '0', 'F', 'F', '0', '0']
}

/// Whether an avatar's images are scaled without smoothing: exactly when its
/// `filtermode` entry is the string `nearest`.
pub fn uses_nearest_filter(filtermode: Option<&str>) -> (r: bool)
    ensures
        r <==> (filtermode matches Some(f) && f@ == seq!['n', 'e', 'a', 'r', 'e', 's', 't']),
{
    match filtermode {
        None => false,
        Some(f) => {
            let cs = chars_of(f);
            let r = cs.len() == 7 && cs[0] == 'n' && cs[1] == 'e' && cs[2] == 'a' && cs[3] == 'r'
                && cs[4] == 'e' && cs[5] == 's' && cs[6] == 't';
            if r {
                assert(cs@ =~= seq!['n', 'e', 'a', 'r', 'e', 's', 't']);
            }
            r
        },
    }
}

/// The background colour of an avatar as a `0xRRGGBB` number: its `bgcol`
/// entry (or `00FF00` when there is none) read as hexadecimal. `None` when
/// that text is not a hexadecimal `u32`; such an avatar is not loaded.
pub fn background_color(bgcol: Option<&str>) -> (r: Option<u32>)
    ensures
        ({
            let text = match bgcol {
                Some(s) => s@,
                None => default_background(),
            };
            &&& r matches Some(v) ==> parse_unsigned(text, 16, u32::MAX as nat) == Some(v as nat)
            &&& r is None ==> parse_unsigned(text, 16, u32::MAX as nat) is None
        }),
{
    let text: Vec<char> = match bgcol {
        Some(s) => chars_of(s),
        None => {
            let v = vec!['0', '0', 'F', 'F', '0', '0'];
            assert(v@ =~= default_background());
            v
        },
    };
    parse_hex_u32(text.as_slice())
}

/// How an emotion's image moves while the avatar speaks, with each number
/// kept as the text that gives it in the configuration.
#[derive(Debug)]
pub enum TalkModeSetting {
    /// The image stays in place.
    Plain,
    /// The image is raised by the given magnitude.
    MoveUp(String),
    /// The image is shaken by the given magnitude.
    Shake(String),
    /// The image jumps with the given magnitude and gravity.
    Jump(String, String),
}

/// The abstract content of a talk mode setting.
pub enum TalkModeModel {
    Plain,
    MoveUp(Seq<char>),
    Shake(Seq<char>),
    Jump(Seq<char>, Seq<char>),
}

impl View for TalkModeSetting {
    type V = TalkModeModel;

    open spec fn view(&self) -> TalkModeModel {
        match self {
            TalkModeSetting::Plain => TalkModeModel::Plain,
            TalkModeSetting::MoveUp(m) => TalkModeModel::MoveUp(m@),
            TalkModeSetting::Shake(m) => TalkModeModel::Shake(m@),
            TalkModeSetting::Jump(m, g) => TalkModeModel::Jump(m@, g@),
        }
    }
}

/// A `jump:` talk mode names no gravity (no second `:`-separated value).
#[derive(Clone, Copy, Debug, PartialEq, Eq, Structural)]
pub struct MissingGravity;

/// The text `moveup:`.
pub open spec fn moveup_prefix() -> Seq<char> {
    seq!['m', 'o', 'v', 'e', 'u', 'p', ':']
}

/// The text `jump:`.
pub open spec fn jump_prefix() -> Seq<char> {
    seq!['j', 'u', 'm', 'p', ':']
}

/// The text `shake:`.
pub open spec fn shake_prefix() -> Seq<char> {
    seq!['s', 'h', 'a', 'k', 'e', ':']
}

/// What a `talkmode` entry says. A text that starts with `moveup:` moves up by
/// the text with every `moveup:` removed; else one that starts with `jump:`
/// jumps, with every `jump:` removed and the rest split at `:` into magnitude
/// and gravity (extra values are ignored; a missing gravity is an error); else
/// one that starts with `shake:` shakes by the text with every `shake:`
/// removed; anything else keeps the image still.
pub open spec fn talk_mode_of(s: Seq<char>) -> Result<TalkModeModel, MissingGravity> {
    if starts_with(s, moveup_prefix()) {
        Ok(TalkModeModel::MoveUp(replace_all(s, moveup_prefix(), Seq::<char>::empty())))
    } else if starts_with(s, jump_prefix()) {
        let vals = split_on(replace_all(s, jump_prefix(), Seq::<char>::empty()), ':');
        if vals.len() >= 2 {
            Ok(TalkModeModel::Jump(vals[0], vals[1]))
        } else {
            Err(MissingGravity)
        }
    } else if starts_with(s, shake_prefix()) {
        Ok(TalkModeModel::Shake(replace_all(s, shake_prefix(), Seq::<char>::empty())))
    } else {
        Ok(TalkModeModel::Plain)
    }
}

/// Reads an emotion's `talkmode` entry (an absent entry keeps the image still),
/// as `talk_mode_of` says.
pub fn talk_mode(entry: Option<&str>) -> (r: Result<TalkModeSetting, MissingGravity>)
    ensures
        entry is None ==> r matches Ok(TalkModeSetting::Plain),
        entry matches Some(s) ==> match (r, talk_mode_of(s@)) {
            (Ok(m), Ok(spec_m)) => m@ == spec_m,
            (Err(e), Err(spec_e)) => e == spec_e,
            _ => false,
        },
{
    let s = match entry {
        None => return Ok(TalkModeSetting::Plain),
        Some(s) => chars_of(s),
    };
    let empty: Vec<char> = Vec::new();
    let moveup = vec!['m', 'o', 'v', 'e', 'u', 'p', ':'];
    assert(moveup@ =~= moveup_prefix());
    let jump = vec!['j', 'u', 'm', 'p', ':'];
    assert(jump@ =~= jump_prefix());
    let shake = vec!['s', 'h', 'a', 'k', 'e', ':'];
    assert(shake@ =~= shake_prefix());
    if starts_with_chars(&s, &moveup) {
        let v = replace_all_chars(&s, &moveup, &empty);
        return Ok(TalkModeSetting::MoveUp(string_of(&v)));
    }
    if starts_with_chars(&s, &jump) {
        let v = replace_all_chars(&s, &jump, &empty);
        let vals = split_chars(&v, ':');
        assert(views(vals@) == split_on(v@, ':'));
        if vals.len() >= 2 {
            assert(vals@[0]@ == split_on(v@, ':')[0]);
            assert(vals@[1]@ == split_on(v@, ':')[1]);
            let mag = string_of(vals[0].as_slice());
            let grav = string_of(vals[1].as_slice());
            return Ok(TalkModeSetting::Jump(mag, grav));
        }
        return Err(MissingGravity);
    }
    if starts_with_chars(&s, &shake) {
        let v = replace_all_chars(&s, &shake, &empty);
        return Ok(TalkModeSetting::Shake(string_of(&v)));
    }
    Ok(TalkModeSetting::Plain)
}

/// The two values of a `WxH` size entry: the text before the first `x` and
/// the text between the first and second `x`. `None` when there is no `x`.
pub fn size_parts(entry: &str) -> (r: Option<(String, String)>)
    ensures
        r matches Some((w, h)) ==> split_on(entry@, 'x').len() >= 2 && w@ == split_on(entry@, 'x')[0]
            && h@ == split_on(entry@, 'x')[1],
        r is None ==> split_on(entry@, 'x').len() < 2,
{
    let s = chars_of(entry);
    let parts = split_chars(&s, 'x');
    assert(views(parts@) == split_on(s@, 'x'));
    if parts.len() >= 2 {
        assert(parts@[0]@ == split_on(s@, 'x')[0]);
        assert(parts@[1]@ == split_on(s@, 'x')[1]);
        Some((string_of(parts[0].as_slice()), string_of(parts[1].as_slice())))
    } else {
        None
    }
}

/// The number that tells the images of emotion `i` apart: none for the first
/// emotion, `i + 1` in decimal for the others.
pub open spec fn emotion_suffix(i: nat) -> Seq<char> {
    if i == 0 {
        Seq::<char>::empty()
    } else {
        decimal(i + 1)
    }
}

/// The file names of the idle and the speaking image of emotion `i` (counted
/// from 0): `idle.png` and `speak.png` for the first, then `idle2.png` and
/// `speak2.png`, and so on.
pub fn emotion_image_names(i: usize) -> (r: (String, String))
    requires
        i < usize::MAX,
    ensures
        r.0@ == seq!['i', 'd', 'l', 'e'] + emotion_suffix(i as nat) + seq!['.', 'p', 'n', 'g'],
        r.1@ == seq!['s', 'p', 'e', 'a', 'k'] + emotion_suffix(i as nat) + seq!['.', 'p', 'n', 'g'],
{
    let suffix: Vec<char> = if i == 0 {
        Vec::new()
    } else {
        decimal_chars((i as u64) + 1)
    };
    assert(suffix@ == emotion_suffix(i as nat));
    let mut idle = vec!['i', 'd', 'l', 'e'];
    let mut speak = vec!['s', 'p', 'e', 'a', 'k'];
    let ext = vec!['.', 'p', 'n', 'g'];
    let ghost idle0 = idle@;
    let ghost speak0 = speak@;
    append_chars(&mut idle, &suffix);
    append_chars(&mut idle, &ext);
    append_chars(&mut speak, &suffix);
    append_chars(&mut speak, &ext);
    assert(idle0 =~= seq!['i', 'd', 'l', 'e']);
    assert(speak0 =~= seq!['s', 'p', 'e', 'a', 'k']);
    assert(ext@ =~= seq!['.', 'p', 'n', 'g']);
    (string_of(&idle), string_of(&speak))
}

/// The text `avatars/`.
pub open spec fn avatars_dir() -> Seq<char> {
    seq!['a', 'v', 'a', 't', 'a', 'r', 's', '/']
}

/// The name under which an avatar directory is listed: its path with every
/// backslash turned into a slash and every `avatars/` removed.
pub open spec fn display_name_of(path: Seq<char>) -> Seq<char> {
    replace_all(replace_all(path, seq!['\\'], seq!['/']), avatars_dir(), Seq::<char>::empty())
}

/// The name under which an avatar directory is listed, as `display_name_of` says.
pub fn avatar_display_name(path: &str) -> (r: String)
    ensures
        r@ == display_name_of(path@),
{
    let p = chars_of(path);
    let backslash = vec!['\\'];
    let slash = vec!['/'];
    let dir = vec!['a', 'v', 'a', 't', 'a', 'r', 's', '/'];
    let empty: Vec<char> = Vec::new();
    assert(backslash@ =~= seq!['\\']);
    assert(slash@ =~= seq!['/']);
    assert(dir@ =~= avatars_dir());
    let a = replace_all_chars(&p, &backslash, &slash);
    let b = replace_all_chars(&a, &dir, &empty);
    string_of(&b)
}

} // verus!
