use std::str::FromStr;

use toml::{Table, Value};
use vstd::prelude::*;

use crate::avatar::{
    background_color, default_background, talk_mode, talk_mode_of, uses_nearest_filter, TalkModeModel,
    TalkModeSetting,
};
use crate::chars::{split_on, views};
use crate::number::parse_unsigned;

verus! {

/// A value inside an emotion's table: a string, or anything else.
#[derive(Debug)]
pub enum MetaLeaf {
    Text(String),
    Other,
}

/// An element of a top-level array: a table (its entries in file order), or
/// anything else.
#[derive(Debug)]
pub enum MetaElement {
    Table(Vec<(String, MetaLeaf)>),
    Other,
}

/// A top-level value of an avatar's `meta.toml`: a string, an array, or
/// anything else.
#[derive(Debug)]
pub enum MetaValue {
    Text(String),
    Array(Vec<MetaElement>),
    Other,
}

/// The entries of an avatar's `meta.toml`, in the order the TOML library
/// lists them.
#[derive(Debug)]
pub struct AvatarMeta {
    pub entries: Vec<(String, MetaValue)>,
}

/// The abstract content of a value inside an emotion's table.
pub enum LeafModel {
    Text(Seq<char>),
    Other,
}

/// The abstract content of an element of a top-level array.
pub enum ElementModel {
    Table(Seq<(Seq<char>, LeafModel)>),
    Other,
}

/// The abstract content of a top-level value.
pub enum ValueModel {
    Text(Seq<char>),
    Array(Seq<ElementModel>),
    Other,
}

impl View for MetaLeaf {
    type V = LeafModel;

    open spec fn view(&self) -> LeafModel {
        match self {
            MetaLeaf::Text(s) => LeafModel::Text(s@),
            MetaLeaf::Other => LeafModel::Other,
        }
    }
}

/// The entries of an emotion's table, as abstract content.
pub open spec fn leaf_entries(es: Seq<(String, MetaLeaf)>) -> Seq<(Seq<char>, LeafModel)> {
    es.map_values(|e: (String, MetaLeaf)| (e.0@, e.1@))
}

impl View for MetaElement {
    type V = ElementModel;

    open spec fn view(&self) -> ElementModel {
        match self {
            MetaElement::Table(es) => ElementModel::Table(leaf_entries(es@)),
            MetaElement::Other => ElementModel::Other,
        }
    }
}

impl View for MetaValue {
    type V = ValueModel;

    open spec fn view(&self) -> ValueModel {
        match self {
            MetaValue::Text(s) => ValueModel::Text(s@),
            MetaValue::Array(v) => ValueModel::Array(v@.map_values(|e: MetaElement| e@)),
            MetaValue::Other => ValueModel::Other,
        }
    }
}

impl View for AvatarMeta {
    type V = Seq<(Seq<char>, ValueModel)>;

    open spec fn view(&self) -> Seq<(Seq<char>, ValueModel)> {
        self.entries@.map_values(|e: (String, MetaValue)| (e.0@, e.1@))
    }
}

/// What the TOML library reads from the text of a `meta.toml`: its entries
/// (strings, arrays of tables of strings, and other values kept only as
/// present), or `None` when the text is not a TOML table.
pub uninterp spec fn toml_meta(text: Seq<char>) -> Option<Seq<(Seq<char>, ValueModel)>>;

/// Reads the text of an avatar's `meta.toml` as a TOML table.
///
/// Trusted: calls `toml::Table::from_str` and converts
/// the table one for one: each string to `Text`, each array to `Array` of its
/// elements, each table element of an array to `Table` of its entries (string
/// values to `Text`), and every other value to `Other`. The contract claims
/// only that the result is a function of the text, named `toml_meta`.
#[verifier::external_body]
pub fn parse_avatar_meta(text: &str) -> (r: Option<AvatarMeta>)
    ensures
        r matches Some(m) ==> toml_meta(text@) == Some(m@),
        r is None ==> toml_meta(text@) is None,
{
    let table = Table::from_str(text).ok()?;
    let element = |v: &Value| v.as_table().map_or(MetaElement::Other, |t| MetaElement::Table(
        t.iter().map(|(k, x)| (k.clone(), x.as_str().map_or(MetaLeaf::Other, |s| MetaLeaf::Text(s.into())))).collect(),
    ));
    let entries = table.iter().map(|(k, v)| (k.clone(), match v {
        Value::String(s) => MetaValue::Text(s.clone()),
        Value::Array(a) => MetaValue::Array(a.iter().map(element).collect()),
        _ => MetaValue::Other,
    }));
    Some(AvatarMeta { entries: entries.collect() })
}

/// The value of the first entry named `key`, if any.
pub open spec fn lookup<T>(es: Seq<(Seq<char>, T)>, key: Seq<char>) -> Option<T>
    decreases es.len(),
{
    if es.len() == 0 {
        None
    } else if es[0].0 == key {
        Some(es[0].1)
    } else {
        lookup(es.drop_first(), key)
    }
}

/// Why an avatar cannot be loaded from its `meta.toml`.
#[derive(Clone, Copy, Debug, PartialEq, Eq, Structural)]
pub enum AvatarConfigError {
    /// The text is not a TOML table; the avatar is skipped.
    NotToml,
    /// The background colour is not a hexadecimal `u32`; the avatar is skipped.
    BadBackground,
    /// `emotions` is not an array.
    EmotionsNotArray,
    /// An element of `emotions` is not a table.
    EmotionNotTable,
    /// A `jump:` talk mode names no gravity.
    MissingGravity,
    /// A size entry is not a string.
    SizeNotText,
    /// A size entry has no `x`.
    SizeWithoutX,
}

/// An emotion as its table describes it: how it moves while speaking, and the
/// sizes of its idle and speaking images (width and height text), when given.
#[derive(Debug)]
pub struct EmotionConfig {
    pub talk_mode: TalkModeSetting,
    pub idle_size: Option<(String, String)>,
    pub speak_size: Option<(String, String)>,
}

/// An avatar as its `meta.toml` describes it.
#[derive(Debug)]
pub struct AvatarConfig {
    pub nearest_filter: bool,
    pub background: u32,
    pub emotions: Vec<EmotionConfig>,
}

/// The abstract content of an emotion's description.
pub struct EmotionModel {
    pub talk_mode: TalkModeModel,
    pub idle_size: Option<(Seq<char>, Seq<char>)>,
    pub speak_size: Option<(Seq<char>, Seq<char>)>,
}

/// The abstract content of an avatar's description.
pub struct AvatarModel {
    pub nearest_filter: bool,
    pub background: nat,
    pub emotions: Seq<EmotionModel>,
}

impl View for EmotionConfig {
    type V = EmotionModel;

    open spec fn view(&self) -> EmotionModel {
        EmotionModel {
            talk_mode: self.talk_mode@,
            idle_size: match self.idle_size {
                Some((w, h)) => Some((w@, h@)),
                None => None,
            },
            speak_size: match self.speak_size {
                Some((w, h)) => Some((w@, h@)),
                None => None,
            },
        }
    }
}

impl View for AvatarConfig {
    type V = AvatarModel;

    open spec fn view(&self) -> AvatarModel {
        AvatarModel {
            nearest_filter: self.nearest_filter,
            background: self.background as nat,
            emotions: self.emotions@.map_values(|e: EmotionConfig| e@),
        }
    }
}

/// The text of a top-level entry, when it is a string.
pub open spec fn text_entry(es: Seq<(Seq<char>, ValueModel)>, key: Seq<char>) -> Option<Seq<char>> {
    match lookup(es, key) {
        Some(ValueModel::Text(s)) => Some(s),
        _ => None,
    }
}

/// A size entry of an emotion: absent gives no size; a string is split at
/// `x` into width and height; anything else is an error.
pub open spec fn size_of(es: Seq<(Seq<char>, LeafModel)>, key: Seq<char>) -> Result<
    Option<(Seq<char>, Seq<char>)>,
    AvatarConfigError,
> {
    match lookup(es, key) {
        None => Ok(None),
        Some(LeafModel::Other) => Err(AvatarConfigError::SizeNotText),
        Some(LeafModel::Text(s)) => {
            let parts = split_on(s, 'x');
            if parts.len() >= 2 {
                Ok(Some((parts[0], parts[1])))
            } else {
                Err(AvatarConfigError::SizeWithoutX)
            }
        },
    }
}

/// The text `talkmode`.
pub open spec fn talkmode_key() -> Seq<char> {
    seq!['t', 'a', 'l', 'k', 'm', 'o', 'd', 'e']
}

/// The text `idlesize`.
pub open spec fn idlesize_key() -> Seq<char> {
    seq!['i', 'd', 'l', 'e', 's', 'i', 'z', 'e']
}

/// The text `speaksize`.
pub open spec fn speaksize_key() -> Seq<char> {
    seq!['s', 'p', 'e', 'a', 'k', 's', 'i', 'z', 'e']
}

/// The text `filtermode`.
pub open spec fn filtermode_key() -> Seq<char> {
    seq!['f', 'i', 'l', 't', 'e', 'r', 'm', 'o', 'd', 'e']
}

/// The text `bgcol`.
pub open spec fn bgcol_key() -> Seq<char> {
    seq!['b', 'g', 'c', 'o', 'l']
}

/// The text `emotions`.
pub open spec fn emotions_key() -> Seq<char> {
    seq!['e', 'm', 'o', 't', 'i', 'o', 'n', 's']
}

/// The text `none`.
pub open spec fn none_text() -> Seq<char> {
    seq!['n', 'o', 'n', 'e']
}

/// An emotion described by the entries of its table: its talk mode (a string
/// `talkmode` entry, `none` for any other value, and still when absent), then
/// its idle size, then its speaking size; the first error found is reported.
pub open spec fn emotion_of(es: Seq<(Seq<char>, LeafModel)>) -> Result<EmotionModel, AvatarConfigError> {
    let talk = match lookup(es, talkmode_key()) {
        None => Ok(TalkModeModel::Plain),
        Some(LeafModel::Text(s)) => talk_mode_of(s),
        Some(LeafModel::Other) => talk_mode_of(none_text()),
    };
    match talk {
        Err(_) => Err(AvatarConfigError::MissingGravity),
        Ok(t) => match size_of(es, idlesize_key()) {
            Err(e) => Err(e),
            Ok(idle) => match size_of(es, speaksize_key()) {
                Err(e) => Err(e),
                Ok(speak) => Ok(EmotionModel { talk_mode: t, idle_size: idle, speak_size: speak }),
            },
        },
    }
}

/// Each size of an emotion comes from its own entry alone: with no `idlesize`
/// entry there is no idle size (the idle image keeps its own size), with no
/// `speaksize` entry no speaking size; a text entry gives the pieces before
/// and after its first `x` as width and height.
pub proof fn lemma_emotion_sizes_from_own_entries(es: Seq<(Seq<char>, LeafModel)>)
    ensures
        emotion_of(es) matches Ok(m) ==> match lookup(es, seq!['i', 'd', 'l', 'e', 's', 'i', 'z', 'e']) {
            None => m.idle_size is None,
            Some(LeafModel::Text(t)) => m.idle_size == Some((split_on(t, 'x')[0], split_on(t, 'x')[1])),
            Some(LeafModel::Other) => false,
        },
        emotion_of(es) matches Ok(m) ==> match lookup(es, seq!['s', 'p', 'e', 'a', 'k', 's', 'i', 'z', 'e']) {
            None => m.speak_size is None,
            Some(LeafModel::Text(t)) => m.speak_size == Some((split_on(t, 'x')[0], split_on(t, 'x')[1])),
            Some(LeafModel::Other) => false,
        },
{
    assert(idlesize_key() == seq!['i', 'd', 'l', 'e', 's', 'i', 'z', 'e']);
    assert(speaksize_key() == seq!['s', 'p', 'e', 'a', 'k', 's', 'i', 'z', 'e']);
}

/// The emotions described by the tables `tables`, in order; the first error
/// found is reported.
pub open spec fn emotions_of(tables: Seq<Seq<(Seq<char>, LeafModel)>>) -> Result<Seq<EmotionModel>, AvatarConfigError>
    decreases tables.len(),
{
    if tables.len() == 0 {
        Ok(Seq::<EmotionModel>::empty())
    } else {
        match emotions_of(tables.drop_last()) {
            Err(e) => Err(e),
            Ok(done) => match emotion_of(tables.last()) {
                Err(e) => Err(e),
                Ok(m) => Ok(done.push(m)),
            },
        }
    }
}

/// The tables of the elements, when every element is a table.
pub open spec fn element_tables(els: Seq<ElementModel>) -> Option<Seq<Seq<(Seq<char>, LeafModel)>>>
    decreases els.len(),
{
    if els.len() == 0 {
        Some(Seq::empty())
    } else {
        match (element_tables(els.drop_last()), els.last()) {
            (Some(ts), ElementModel::Table(t)) => Some(ts.push(t)),
            _ => None,
        }
    }
}

/// What an avatar's `meta.toml` says, given what the TOML library read from
/// it: not TOML is an error; the filter is nearest exactly when `filtermode`
/// is the string `nearest`; the background is the string `bgcol` (or
/// `00FF00`, also when `bgcol` is no string) read as hexadecimal, an error
/// when it is not; the emotions are those of the tables of the `emotions`
/// array (one emotion with an empty table when there is no such entry), an
/// error when it is no array or holds anything but tables.
pub open spec fn avatar_config_of(meta: Option<Seq<(Seq<char>, ValueModel)>>) -> Result<AvatarModel, AvatarConfigError> {
    match meta {
        None => Err(AvatarConfigError::NotToml),
        Some(es) => {
            let bg_text = match text_entry(es, bgcol_key()) {
                Some(s) => s,
                None => default_background(),
            };
            match parse_unsigned(bg_text, 16, u32::MAX as nat) {
                None => Err(AvatarConfigError::BadBackground),
                Some(bg) => {
                    let tables = match lookup(es, emotions_key()) {
                        None => Ok(seq![Seq::<(Seq<char>, LeafModel)>::empty()]),
                        Some(ValueModel::Array(els)) => match element_tables(els) {
                            Some(ts) => Ok(ts),
                            None => Err(AvatarConfigError::EmotionNotTable),
                        },
                        Some(_) => Err(AvatarConfigError::EmotionsNotArray),
                    };
                    match tables {
                        Err(e) => Err(e),
                        Ok(ts) => match emotions_of(ts) {
                            Err(e) => Err(e),
                            Ok(ems) => Ok(
                                AvatarModel {
                                    nearest_filter: text_entry(es, filtermode_key()) == Some(
                                        seq!['n', 'e', 'a', 'r', 'e', 's', 't'],
                                    ),
                                    background: bg,
                                    emotions: ems,
                                },
                            ),
                        },
                    }
                },
            }
        },
    }
}

} // verus!

verus! {

/// The first entry named `key` decides the lookup.
proof fn lemma_lookup_at<T>(es: Seq<(Seq<char>, T)>, key: Seq<char>, i: int)
    requires
        0 <= i < es.len(),
        es[i].0 == key,
        forall|j: int| 0 <= j < i ==> es[j].0 != key,
    ensures
        lookup(es, key) == Some(es[i].1),
    decreases i,
{
    if i > 0 {
        let rest = es.drop_first();
        assert forall|j: int| 0 <= j < i - 1 implies rest[j].0 != key by {
            assert(rest[j] == es[j + 1]);
        }
        lemma_lookup_at(rest, key, i - 1);
    }
}

/// With no entry named `key`, the lookup finds nothing.
proof fn lemma_lookup_absent<T>(es: Seq<(Seq<char>, T)>, key: Seq<char>)
    requires
        forall|j: int| 0 <= j < es.len() ==> es[j].0 != key,
    ensures
        lookup(es, key) is None,
    decreases es.len(),
{
    if es.len() > 0 {
        let rest = es.drop_first();
        assert forall|j: int| 0 <= j < rest.len() implies rest[j].0 != key by {
            assert(rest[j] == es[j + 1]);
        }
        lemma_lookup_absent(rest, key);
    }
}

/// A prefix that holds a non-table element makes the whole list fail.
proof fn lemma_element_tables_prefix(els: Seq<ElementModel>, j: int)
    requires
        0 <= j <= els.len(),
        element_tables(els.take(j)) is None,
    ensures
        element_tables(els) is None,
    decreases els.len(),
{
    if j < els.len() {
        assert(els.drop_last().take(j) == els.take(j));
        lemma_element_tables_prefix(els.drop_last(), j);
    } else {
        assert(els.take(j) == els);
    }
}

/// The first emotion that fails decides the error of the whole list.
proof fn lemma_emotions_prefix(ts: Seq<Seq<(Seq<char>, LeafModel)>>, j: int, e: AvatarConfigError)
    requires
        0 <= j <= ts.len(),
        emotions_of(ts.take(j)) == Err::<Seq<EmotionModel>, AvatarConfigError>(e),
    ensures
        emotions_of(ts) == Err::<Seq<EmotionModel>, AvatarConfigError>(e),
    decreases ts.len(),
{
    if j < ts.len() {
        assert(ts.drop_last().take(j) == ts.take(j));
        lemma_emotions_prefix(ts.drop_last(), j, e);
    } else {
        assert(ts.take(j) == ts);
    }
}

/// The index of the first entry of an emotion's table named `key`.
fn find_leaf(es: &Vec<(String, MetaLeaf)>, key: &[char]) -> (r: Option<usize>)
    ensures
        r matches Some(i) ==> i < es@.len() && lookup(leaf_entries(es@), key@) == Some(
            leaf_entries(es@)[i as int].1,
        ),
        r is None ==> lookup(leaf_entries(es@), key@) is None,
{
    let ghost v = leaf_entries(es@);
    let mut i: usize = 0;
    while i < es.len()
        invariant
            i <= es@.len(),
            v == leaf_entries(es@),
            forall|j: int| 0 <= j < i ==> v[j].0 != key@,
        decreases es@.len() - i,
    {
        let name = crate::chars::chars_of(es[i].0.as_str());
        if crate::chars::chars_eq(&name, key) {
            proof {
                lemma_lookup_at(v, key@, i as int);
            }
            return Some(i);
        }
        i = i + 1;
    }
    proof {
        lemma_lookup_absent(v, key@);
    }
    None
}

/// The index of the first top-level entry named `key`.
fn find_value(m: &AvatarMeta, key: &[char]) -> (r: Option<usize>)
    ensures
        r matches Some(i) ==> i < m.entries@.len() && lookup(m@, key@) == Some(m@[i as int].1),
        r is None ==> lookup(m@, key@) is None,
{
    let ghost v = m@;
    let mut i: usize = 0;
    while i < m.entries.len()
        invariant
            i <= m.entries@.len(),
            v == m@,
            forall|j: int| 0 <= j < i ==> v[j].0 != key@,
        decreases m.entries@.len() - i,
    {
        let name = crate::chars::chars_of(m.entries[i].0.as_str());
        if crate::chars::chars_eq(&name, key) {
            proof {
                lemma_lookup_at(v, key@, i as int);
            }
            return Some(i);
        }
        i = i + 1;
    }
    proof {
        lemma_lookup_absent(v, key@);
    }
    None
}

/// A size entry of an emotion's table, as `size_of` says.
fn size_entry(es: &Vec<(String, MetaLeaf)>, key: &[char]) -> (r: Result<Option<(String, String)>, AvatarConfigError>)
    ensures
        match (r, size_of(leaf_entries(es@), key@)) {
            (Ok(Some((w, h))), Ok(Some((sw, sh)))) => w@ == sw && h@ == sh,
            (Ok(None), Ok(None)) => true,
            (Err(e), Err(f)) => e == f,
            _ => false,
        },
{
    match find_leaf(es, key) {
        None => Ok(None),
        Some(i) => match &es[i].1 {
            MetaLeaf::Other => Err(AvatarConfigError::SizeNotText),
            MetaLeaf::Text(s) => match crate::avatar::size_parts(s.as_str()) {
                None => Err(AvatarConfigError::SizeWithoutX),
                Some((w, h)) => Ok(Some((w, h))),
            },
        },
    }
}

/// An emotion described by its table's entries, as `emotion_of` says.
pub fn emotion_config(es: &Vec<(String, MetaLeaf)>) -> (r: Result<EmotionConfig, AvatarConfigError>)
    ensures
        match (r, emotion_of(leaf_entries(es@))) {
            (Ok(c), Ok(m)) => c@ == m,
            (Err(e), Err(f)) => e == f,
            _ => false,
        },
{
    let talk_key = vec!['t', 'a', 'l', 'k', 'm', 'o', 'd', 'e'];
    assert(talk_key@ =~= talkmode_key());
    let idle_key = vec!['i', 'd', 'l', 'e', 's', 'i', 'z', 'e'];
    assert(idle_key@ =~= idlesize_key());
    let speak_key = vec!['s', 'p', 'e', 'a', 'k', 's', 'i', 'z', 'e'];
    assert(speak_key@ =~= speaksize_key());
    let talk = match find_leaf(es, &talk_key) {
        None => talk_mode(None),
        Some(i) => match &es[i].1 {
            MetaLeaf::Text(s) => talk_mode(Some(s.as_str())),
            MetaLeaf::Other => {
                assert(!crate::chars::starts_with(none_text(), crate::avatar::moveup_prefix()));
                assert(!crate::chars::starts_with(none_text(), crate::avatar::jump_prefix()));
                assert(!crate::chars::starts_with(none_text(), crate::avatar::shake_prefix()));
                Ok(TalkModeSetting::Plain)
            },
        },
    };
    let talk_mode = match talk {
        Err(_) => return Err(AvatarConfigError::MissingGravity),
        Ok(t) => t,
    };
    let idle_size = match size_entry(es, &idle_key) {
        Err(e) => return Err(e),
        Ok(s) => s,
    };
    let speak_size = match size_entry(es, &speak_key) {
        Err(e) => return Err(e),
        Ok(s) => s,
    };
    Ok(EmotionConfig { talk_mode, idle_size, speak_size })
}

/// Describes an avatar from the text of its `meta.toml`, as
/// `avatar_config_of` says of what the TOML library reads from it.
#[verifier::loop_isolation(false)]
pub fn avatar_config(text: &str) -> (r: Result<AvatarConfig, AvatarConfigError>)
    ensures
        match (r, avatar_config_of(toml_meta(text@))) {
            (Ok(c), Ok(m)) => c@ == m,
            (Err(e), Err(f)) => e == f,
            _ => false,
        },
{
    let meta = match parse_avatar_meta(text) {
        None => return Err(AvatarConfigError::NotToml),
        Some(m) => m,
    };
    let ghost es = meta@;
    let bg_key = vec!['b', 'g', 'c', 'o', 'l'];
    assert(bg_key@ =~= bgcol_key());
    let filter_key = vec!['f', 'i', 'l', 't', 'e', 'r', 'm', 'o', 'd', 'e'];
    assert(filter_key@ =~= filtermode_key());
    let em_key = vec!['e', 'm', 'o', 't', 'i', 'o', 'n', 's'];
    assert(em_key@ =~= emotions_key());
    let bg_text: Option<&str> = match find_value(&meta, &bg_key) {
        None => None,
        Some(i) => match &meta.entries[i].1 {
            MetaValue::Text(s) => Some(s.as_str()),
            _ => None,
        },
    };
    let background = match background_color(bg_text) {
        None => return Err(AvatarConfigError::BadBackground),
        Some(b) => b,
    };
    let filter_text: Option<&str> = match find_value(&meta, &filter_key) {
        None => None,
        Some(i) => match &meta.entries[i].1 {
            MetaValue::Text(s) => Some(s.as_str()),
            _ => None,
        },
    };
    let nearest_filter = uses_nearest_filter(filter_text);
    let mut emotions: Vec<EmotionConfig> = Vec::new();
    match find_value(&meta, &em_key) {
        None => {
            let empty: Vec<(String, MetaLeaf)> = Vec::new();
            assert(leaf_entries(empty@) =~= Seq::<(Seq<char>, LeafModel)>::empty());
            let e = match emotion_config(&empty) {
                Err(e) => return Err(e),
                Ok(e) => e,
            };
            let ghost ts = seq![Seq::<(Seq<char>, LeafModel)>::empty()];
            assert(ts.drop_last() == Seq::<Seq<(Seq<char>, LeafModel)>>::empty());
            assert(ts.last() == Seq::<(Seq<char>, LeafModel)>::empty());
            assert(emotions_of(ts.drop_last()) == Ok::<Seq<EmotionModel>, AvatarConfigError>(
                Seq::<EmotionModel>::empty(),
            ));
            assert(emotion_of(ts.last()) == Ok::<EmotionModel, AvatarConfigError>(e@));
            assert(Seq::<EmotionModel>::empty().push(e@) == seq![e@]);
            assert(emotions_of(ts) == Ok::<Seq<EmotionModel>, AvatarConfigError>(seq![e@]));
            emotions.push(e);
            assert(emotions@.map_values(|c: EmotionConfig| c@) =~= seq![e@]);
        },
        Some(idx) => {
            let els = match &meta.entries[idx].1 {
                MetaValue::Array(els) => els,
                _ => return Err(AvatarConfigError::EmotionsNotArray),
            };
            let ghost ev = els@.map_values(|e: MetaElement| e@);
            assert(lookup(es, emotions_key()) == Some(ValueModel::Array(ev)));
            let mut k: usize = 0;
            assert(ev.take(0) =~= Seq::<ElementModel>::empty());
            while k < els.len()
                invariant
                    k <= els@.len(),
                    ev == els@.map_values(|e: MetaElement| e@),
                    element_tables(ev.take(k as int)) is Some,
                    element_tables(ev.take(k as int)).unwrap().len() == k,
                    forall|j: int| 0 <= j < k ==> (#[trigger] els@[j]) is Table,
                    forall|j: int|
                        0 <= j < k ==> #[trigger] element_tables(ev.take(k as int)).unwrap()[j] == leaf_entries(
                            els@[j]->Table_0@,
                        ),
                decreases els@.len() - k,
            {
                assert(ev.take(k + 1).drop_last() == ev.take(k as int));
                assert(ev.take(k + 1).last() == els@[k as int]@);
                match &els[k] {
                    MetaElement::Other => {
                        proof {
                            lemma_element_tables_prefix(ev, k + 1);
                        }
                        return Err(AvatarConfigError::EmotionNotTable);
                    },
                    MetaElement::Table(_) => {},
                }
                k = k + 1;
            }
            assert(ev.take(els@.len() as int) == ev);
            let ghost ts = element_tables(ev).unwrap();
            let mut k: usize = 0;
            assert(ts.take(0) =~= Seq::<Seq<(Seq<char>, LeafModel)>>::empty());
            assert(emotions@.map_values(|c: EmotionConfig| c@) =~= Seq::<EmotionModel>::empty());
            while k < els.len()
                invariant
                    k <= els@.len(),
                    ts.len() == els@.len(),
                    forall|j: int| 0 <= j < els@.len() ==> (#[trigger] els@[j]) is Table,
                    forall|j: int| 0 <= j < els@.len() ==> #[trigger] ts[j] == leaf_entries(els@[j]->Table_0@),
                    emotions_of(ts.take(k as int)) == Ok::<Seq<EmotionModel>, AvatarConfigError>(
                        emotions@.map_values(|c: EmotionConfig| c@),
                    ),
                decreases els@.len() - k,
            {
                assert(ts.take(k + 1).drop_last() == ts.take(k as int));
                assert(ts.take(k + 1).last() == ts[k as int]);
                let table = match &els[k] {
                    MetaElement::Table(t) => t,
                    MetaElement::Other => {
                        assert(false);
                        return Err(AvatarConfigError::EmotionNotTable);
                    },
                };
                assert(leaf_entries(table@) == ts[k as int]);
                let e = match emotion_config(table) {
                    Err(e) => {
                        proof {
                            lemma_emotions_prefix(ts, k + 1, e);
                        }
                        return Err(e);
                    },
                    Ok(e) => e,
                };
                let ghost before = emotions@.map_values(|c: EmotionConfig| c@);
                emotions.push(e);
                assert(emotions@.map_values(|c: EmotionConfig| c@) =~= before.push(e@));
                k = k + 1;
            }
            assert(ts.take(els@.len() as int) == ts);
        },
    }
    Ok(AvatarConfig { nearest_filter, background, emotions })
}

} // verus!
