use vstd::prelude::*;

use crate::chars::{chars_eq, chars_of};

verus! {

/// Things loaded once per file path and kept for later requests of the same
/// path (the program keeps its textures in one).
pub struct PathCache<T> {
    entries: Vec<(String, T)>,
}

/// The paths and things of a list of entries, later entries taking the place
/// of earlier ones with the same path.
pub open spec fn entries_map<T>(s: Seq<(String, T)>) -> Map<Seq<char>, T>
    decreases s.len(),
{
    if s.len() == 0 {
        Map::empty()
    } else {
        entries_map(s.drop_last()).insert(s.last().0@, s.last().1)
    }
}

impl<T> View for PathCache<T> {
    type V = Map<Seq<char>, T>;

    closed spec fn view(&self) -> Map<Seq<char>, T> {
        entries_map(self.entries@)
    }
}

/// The last entry with path `key` gives what the entries hold for it.
proof fn lemma_entries_last_match<T>(s: Seq<(String, T)>, key: Seq<char>, i: int)
    requires
        0 <= i < s.len(),
        s[i].0@ == key,
        forall|j: int| i < j < s.len() ==> (#[trigger] s[j]).0@ != key,
    ensures
        entries_map(s).contains_key(key),
        entries_map(s)[key] == s[i].1,
    decreases s.len(),
{
    if i < s.len() - 1 {
        lemma_entries_last_match(s.drop_last(), key, i);
        assert(s.last() == s[s.len() - 1]);
    }
}

/// Entries none of which has path `key` hold nothing for it.
proof fn lemma_entries_absent<T>(s: Seq<(String, T)>, key: Seq<char>)
    requires
        forall|j: int| 0 <= j < s.len() ==> (#[trigger] s[j]).0@ != key,
    ensures
        !entries_map(s).contains_key(key),
    decreases s.len(),
{
    if s.len() > 0 {
        lemma_entries_absent(s.drop_last(), key);
        assert(s.last() == s[s.len() - 1]);
    }
}

impl<T> PathCache<T> {
    /// A cache that holds nothing.
    pub fn new() -> (r: PathCache<T>)
        ensures
            r@ == Map::<Seq<char>, T>::empty(),
    {
        PathCache { entries: Vec::new() }
    }

    /// What the cache holds for `path`, if anything.
    pub fn get(&self, path: &str) -> (r: Option<&T>)
        ensures
            r is Some <==> self@.contains_key(path@),
            r matches Some(v) ==> *v == self@[path@],
    {
        let key = chars_of(path);
        let mut i: usize = self.entries.len();
        while i > 0
            invariant
                i <= self.entries@.len(),
                key@ == path@,
                forall|j: int| i <= j < self.entries@.len() ==> (#[trigger] self.entries@[j]).0@ != path@,
            decreases i,
        {
            i = i - 1;
            let name = chars_of(self.entries[i].0.as_str());
            if chars_eq(&name, &key) {
                proof {
                    lemma_entries_last_match(self.entries@, path@, i as int);
                }
                return Some(&self.entries[i].1);
            }
        }
        proof {
            lemma_entries_absent(self.entries@, path@);
        }
        None
    }

    /// Keeps `value` for `path`, in place of anything kept for it before.
    pub fn insert(&mut self, path: String, value: T)
        ensures
            final(self)@ == old(self)@.insert(path@, value),
    {
        self.entries.push((path, value));
        assert(self.entries@.drop_last() == old(self).entries@);
    }
}

/// A thing kept for a path is what a later request of that path gets back;
/// keeping it leaves what is kept for every other path as it was.
pub proof fn lemma_get_after_insert<T>(cache: Map<Seq<char>, T>, path: Seq<char>, value: T, other: Seq<char>)
    ensures
        cache.insert(path, value).contains_key(path),
        cache.insert(path, value)[path] == value,
        other != path ==> (cache.insert(path, value).contains_key(other) == cache.contains_key(other)),
        other != path && cache.contains_key(other) ==> cache.insert(path, value)[other] == cache[other],
{
}

} // verus!
