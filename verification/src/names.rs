use vstd::prelude::*;

use crate::chars::{chars_of, views};

verus! {

broadcast use vstd::seq_lib::group_to_multiset_ensures;

/// `a` comes no later than `b` in the order of strings: compared character by
/// character from the front, the first difference decides, and a string comes
/// before every longer string that it begins.
pub open spec fn lex_le(a: Seq<char>, b: Seq<char>) -> bool
    decreases a.len(),
{
    if a.len() == 0 {
        true
    } else if b.len() == 0 {
        false
    } else if a[0] != b[0] {
        a[0] < b[0]
    } else {
        lex_le(a.drop_first(), b.drop_first())
    }
}

/// Each string comes no later than every string after it.
pub open spec fn is_sorted(s: Seq<Seq<char>>) -> bool {
    forall|i: int, j: int| 0 <= i < j < s.len() ==> lex_le(#[trigger] s[i], #[trigger] s[j])
}

/// The character views of a list of strings.
pub open spec fn string_views(v: Seq<String>) -> Seq<Seq<char>> {
    v.map_values(|s: String| s@)
}

/// Of two strings, one comes no later than the other.
pub proof fn lemma_lex_total(a: Seq<char>, b: Seq<char>)
    ensures
        lex_le(a, b) || lex_le(b, a),
    decreases a.len(),
{
    if a.len() > 0 && b.len() > 0 && a[0] == b[0] {
        lemma_lex_total(a.drop_first(), b.drop_first());
    }
}

/// The order of strings is transitive.
pub proof fn lemma_lex_trans(a: Seq<char>, b: Seq<char>, c: Seq<char>)
    requires
        lex_le(a, b),
        lex_le(b, c),
    ensures
        lex_le(a, c),
    decreases a.len(),
{
    if a.len() > 0 && b.len() > 0 && c.len() > 0 && a[0] == b[0] && b[0] == c[0] {
        lemma_lex_trans(a.drop_first(), b.drop_first(), c.drop_first());
    }
}

/// Whether `a` comes no later than `b`.
fn lex_le_chars(a: &Vec<char>, b: &Vec<char>) -> (r: bool)
    ensures
        r == lex_le(a@, b@),
{
    let mut i: usize = 0;
    assert(a@.skip(0) == a@);
    assert(b@.skip(0) == b@);
    while i < a.len() && i < b.len() && a[i] == b[i]
        invariant
            i <= a@.len(),
            i <= b@.len(),
            lex_le(a@, b@) == lex_le(a@.skip(i as int), b@.skip(i as int)),
        decreases a@.len() - i,
    {
        assert(a@.skip(i as int).drop_first() == a@.skip(i + 1));
        assert(b@.skip(i as int).drop_first() == b@.skip(i + 1));
        assert(a@.skip(i as int)[0] == a@[i as int]);
        assert(b@.skip(i as int)[0] == b@[i as int]);
        i = i + 1;
    }
    if i == a.len() {
        true
    } else if i == b.len() {
        false
    } else {
        assert(a@.skip(i as int)[0] == a@[i as int]);
        assert(b@.skip(i as int)[0] == b@[i as int]);
        a[i] < b[i]
    }
}

/// The avatar names in order, as the picker lists them: the same strings,
/// each as often as given, sorted.
pub fn sort_names(names: &Vec<String>) -> (r: Vec<String>)
    ensures
        is_sorted(string_views(r@)),
        string_views(r@).to_multiset() == string_views(names@).to_multiset(),
        r@.len() == names@.len(),
{
    let mut sorted: Vec<String> = Vec::new();
    let mut keys: Vec<Vec<char>> = Vec::new();
    let mut i: usize = 0;
    assert(string_views(names@.take(0)) =~= Seq::<Seq<char>>::empty());
    assert(string_views(sorted@) =~= Seq::<Seq<char>>::empty());
    while i < names.len()
        invariant
            i <= names@.len(),
            views(keys@) == string_views(sorted@),
            is_sorted(views(keys@)),
            string_views(sorted@).to_multiset() == string_views(names@.take(i as int)).to_multiset(),
            sorted@.len() == i,
        decreases names@.len() - i,
    {
        let key = chars_of(names[i].as_str());
        let ghost ks = views(keys@);
        let mut pos: usize = 0;
        while pos < keys.len() && lex_le_chars(&keys[pos], &key)
            invariant
                pos <= keys@.len(),
                ks == views(keys@),
                forall|k: int| 0 <= k < pos ==> lex_le(#[trigger] ks[k], key@),
            decreases keys@.len() - pos,
        {
            assert(ks[pos as int] == keys@[pos as int]@);
            pos = pos + 1;
        }
        proof {
            if pos < keys@.len() {
                assert(ks[pos as int] == keys@[pos as int]@);
                lemma_lex_total(ks[pos as int], key@);
            }
        }
        let ghost new_ks = ks.insert(pos as int, key@);
        assert forall|a: int, b: int| 0 <= a < b < new_ks.len() implies lex_le(
            #[trigger] new_ks[a],
            #[trigger] new_ks[b],
        ) by {
            if a < pos && b == pos {
            } else if a < pos && b > pos {
                assert(new_ks[b] == ks[b - 1]);
            } else if a == pos {
                assert(new_ks[b] == ks[b - 1]);
                if b - 1 > pos {
                    lemma_lex_trans(key@, ks[pos as int], ks[b - 1]);
                }
            } else if a > pos {
                assert(new_ks[a] == ks[a - 1]);
                assert(new_ks[b] == ks[b - 1]);
            }
        }
        let name = names[i].clone();
        let ghost sv = string_views(sorted@);
        keys.insert(pos, key);
        sorted.insert(pos, name);
        assert(views(keys@) =~= new_ks);
        assert(string_views(sorted@) =~= sv.insert(pos as int, names@[i as int]@));
        assert(string_views(names@.take(i + 1)) =~= string_views(names@.take(i as int)).push(
            names@[i as int]@,
        ));
        proof {
            vstd::seq_lib::to_multiset_insert(sv, pos as int, names@[i as int]@);
            vstd::seq_lib::to_multiset_build(
                string_views(names@.take(i as int)),
                names@[i as int]@,
            );
        }
        i = i + 1;
    }
    assert(names@.take(names@.len() as int) == names@);
    sorted
}

} // verus!
