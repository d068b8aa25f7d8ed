use vstd::prelude::*;

verus! {

/// The character views of a sequence of character vectors.
pub open spec fn views(v: Seq<Vec<char>>) -> Seq<Seq<char>> {
    v.map_values(|x: Vec<char>| x@)
}

/// The pieces of `s` between occurrences of `sep`, in order, empty pieces
/// included: `n` separators give `n + 1` pieces.
pub open spec fn split_on(s: Seq<char>, sep: char) -> Seq<Seq<char>>
    decreases s.len(),
{
    if s.len() == 0 {
        seq![Seq::<char>::empty()]
    } else {
        let r = split_on(s.drop_last(), sep);
        if s.last() == sep {
            r.push(Seq::<char>::empty())
        } else {
            r.update(r.len() - 1, r.last().push(s.last()))
        }
    }
}

/// The pieces joined back together, with `sep` between neighbours.
pub open spec fn join_with(parts: Seq<Seq<char>>, sep: char) -> Seq<char>
    decreases parts.len(),
{
    if parts.len() == 0 {
        Seq::<char>::empty()
    } else if parts.len() == 1 {
        parts[0]
    } else {
        join_with(parts.drop_last(), sep).push(sep) + parts.last()
    }
}

/// `s` begins with `p`.
pub open spec fn starts_with(s: Seq<char>, p: Seq<char>) -> bool {
    p.len() <= s.len() && s.take(p.len() as int) == p
}

/// `s` with every occurrence of `pat` replaced by `rep`, occurrences taken
/// from the left without overlap.
pub open spec fn replace_all(s: Seq<char>, pat: Seq<char>, rep: Seq<char>) -> Seq<char>
    recommends
        pat.len() > 0,
    decreases s.len(),
{
    if s.len() == 0 || pat.len() == 0 {
        s
    } else if starts_with(s, pat) {
        rep + replace_all(s.skip(pat.len() as int), pat, rep)
    } else {
        seq![s[0]] + replace_all(s.drop_first(), pat, rep)
    }
}

/// Joining one more piece appends the separator and that piece.
pub proof fn lemma_join_step(parts: Seq<Seq<char>>, sep: char, k: int)
    requires
        1 <= k < parts.len(),
    ensures
        join_with(parts.take(k + 1), sep) == join_with(parts.take(k), sep).push(sep) + parts[k],
        join_with(parts.take(1), sep) == parts[0],
{
    assert(parts.take(k + 1).drop_last() == parts.take(k));
    assert(parts.take(k + 1).last() == parts[k]);
}

/// Splitting always gives at least one piece.
pub proof fn lemma_split_nonempty(s: Seq<char>, sep: char)
    ensures
        split_on(s, sep).len() >= 1,
    decreases s.len(),
{
    if s.len() > 0 {
        lemma_split_nonempty(s.drop_last(), sep);
    }
}

/// Appending text without separators only extends the last piece.
proof fn lemma_split_append_plain(a: Seq<char>, b: Seq<char>, sep: char)
    requires
        !b.contains(sep),
    ensures
        split_on(a + b, sep) == split_on(a, sep).update(
            split_on(a, sep).len() - 1,
            split_on(a, sep).last() + b,
        ),
    decreases b.len(),
{
    lemma_split_nonempty(a, sep);
    if b.len() == 0 {
        assert(a + b == a);
        assert(split_on(a, sep).last() + b == split_on(a, sep).last());
        assert(split_on(a, sep).update(split_on(a, sep).len() - 1, split_on(a, sep).last())
            == split_on(a, sep));
    } else {
        let b0 = b.drop_last();
        assert(!b0.contains(sep)) by {
            if b0.contains(sep) {
                let k = choose|k: int| 0 <= k < b0.len() && b0[k] == sep;
                assert(b[k] == sep);
            }
        }
        lemma_split_append_plain(a, b0, sep);
        assert((a + b).drop_last() == a + b0);
        assert((a + b).last() == b.last());
        assert(b.last() != sep) by {
            assert(b[b.len() - 1] == b.last());
        }
        let sa = split_on(a, sep);
        let r = split_on(a + b0, sep);
        assert(r.len() == sa.len());
        assert(r.last() == sa.last() + b0);
        assert((sa.last() + b0).push(b.last()) =~= sa.last() + b);
        assert(split_on(a + b, sep) == r.update(r.len() - 1, r.last().push(b.last())));
        assert(r.update(r.len() - 1, r.last().push(b.last())) =~= sa.update(sa.len() - 1, sa.last() + b));
    }
}

/// Splitting the joined pieces gives the pieces back, when no piece holds the
/// separator.
pub proof fn lemma_split_join(parts: Seq<Seq<char>>, sep: char)
    requires
        parts.len() >= 1,
        forall|i: int| 0 <= i < parts.len() ==> !(#[trigger] parts[i]).contains(sep),
    ensures
        split_on(join_with(parts, sep), sep) == parts,
    decreases parts.len(),
{
    if parts.len() == 1 {
        lemma_split_append_plain(Seq::<char>::empty(), parts[0], sep);
        assert(Seq::<char>::empty() + parts[0] == parts[0]);
        assert(split_on(Seq::<char>::empty(), sep) == seq![Seq::<char>::empty()]);
        assert(Seq::<char>::empty() + parts[0] == parts[0]);
        assert(seq![Seq::<char>::empty()].update(0, parts[0]) == parts);
    } else {
        let init = parts.drop_last();
        assert forall|i: int| 0 <= i < init.len() implies !(#[trigger] init[i]).contains(sep) by {
            assert(init[i] == parts[i]);
        }
        lemma_split_join(init, sep);
        let a = join_with(init, sep).push(sep);
        assert(!parts.last().contains(sep)) by {
            assert(parts[parts.len() - 1] == parts.last());
        }
        lemma_split_append_plain(a, parts.last(), sep);
        assert(a.drop_last() == join_with(init, sep));
        assert(split_on(a, sep) == init.push(Seq::<char>::empty()));
        assert(Seq::<char>::empty() + parts.last() == parts.last());
        assert(init.push(Seq::<char>::empty()).update(init.len() as int, parts.last()) == parts);
    }
}

/// The characters of `s`, in order.
pub fn chars_of(s: &str) -> (v: Vec<char>)
    ensures
        v@ == s@,
{
    let mut v: Vec<char> = Vec::new();
    for c in it: s.chars()
        invariant
            v@ == it.seq().take(it.index() as int),
    {
        v.push(c);
    }
    v
}

/// Whether two character sequences are equal.
pub fn chars_eq(a: &[char], b: &[char]) -> (r: bool)
    ensures
        r == (a@ == b@),
{
    if a.len() != b.len() {
        return false;
    }
    let mut i: usize = 0;
    while i < a.len()
        invariant
            i <= a@.len(),
            a@.len() == b@.len(),
            forall|j: int| 0 <= j < i ==> a@[j] == b@[j],
        decreases a@.len() - i,
    {
        if a[i] != b[i] {
            return false;
        }
        i = i + 1;
    }
    assert(a@ =~= b@);
    true
}

/// Appends one character to a string.
///
/// Trusted: calls `String::push`, whose documentation says that it appends the
/// given char to the end of the string.
#[verifier::external_body]
fn push_char(s: &mut String, c: char)
    ensures
        final(s)@ == old(s)@.push(c),
{
    s.push(c);
}

/// A string made of the characters `v`.
pub fn string_of(v: &[char]) -> (s: String)
    ensures
        s@ == v@,
{
    let mut s = String::new();
    let mut i: usize = 0;
    while i < v.len()
        invariant
            i <= v.len(),
            s@ == v@.take(i as int),
        decreases v.len() - i,
    {
        push_char(&mut s, v[i]);
        i = i + 1;
        assert(v@.take(i as int) == v@.take(i - 1).push(v@[i - 1]));
    }
    assert(v@.take(v.len() as int) == v@);
    s
}

/// Appends `src` to `dst`.
pub fn append_chars(dst: &mut Vec<char>, src: &[char])
    ensures
        final(dst)@ == old(dst)@ + src@,
{
    let ghost start = dst@;
    let mut i: usize = 0;
    while i < src.len()
        invariant
            i <= src.len(),
            dst@ == start + src@.take(i as int),
        decreases src.len() - i,
    {
        dst.push(src[i]);
        i = i + 1;
        assert(src@.take(i as int) == src@.take(i - 1).push(src@[i - 1]));
    }
    assert(src@.take(src.len() as int) == src@);
}

/// Whether `s` begins with `p`.
pub fn starts_with_chars(s: &[char], p: &[char]) -> (r: bool)
    ensures
        r == starts_with(s@, p@),
{
    assert(s@.skip(0) == s@);
    starts_with_at(s, 0, p)
}

/// Whether `p` occurs in `s` at position `at`.
fn starts_with_at(s: &[char], at: usize, p: &[char]) -> (r: bool)
    requires
        at <= s.len(),
    ensures
        r == starts_with(s@.skip(at as int), p@),
{
    if p.len() > s.len() - at {
        return false;
    }
    let mut j: usize = 0;
    while j < p.len()
        invariant
            j <= p.len(),
            at + p.len() <= s.len(),
            forall|k: int| 0 <= k < j ==> s@[at + k] == p@[k],
        decreases p.len() - j,
    {
        if s[at + j] != p[j] {
            assert(s@.skip(at as int).take(p.len() as int)[j as int] != p@[j as int]);
            return false;
        }
        j = j + 1;
    }
    assert(s@.skip(at as int).take(p.len() as int) == p@);
    true
}

/// Splits `s` at every `sep`, as `split_on` says.
pub fn split_chars(s: &[char], sep: char) -> (r: Vec<Vec<char>>)
    ensures
        views(r@) == split_on(s@, sep),
{
    let mut parts: Vec<Vec<char>> = Vec::new();
    let mut cur: Vec<char> = Vec::new();
    let mut i: usize = 0;
    assert(s@.take(0) == Seq::<char>::empty());
    assert(views(parts@).push(cur@) == split_on(s@.take(0), sep));
    while i < s.len()
        invariant
            i <= s.len(),
            views(parts@).push(cur@) == split_on(s@.take(i as int), sep),
        decreases s.len() - i,
    {
        let ghost before = s@.take(i as int);
        let ghost now = s@.take(i + 1);
        assert(now.drop_last() == before);
        assert(now.last() == s@[i as int]);
        proof {
            lemma_split_nonempty(before, sep);
        }
        if s[i] == sep {
            let done = cur;
            proof {
                assert(views(parts@.push(done)) == views(parts@).push(done@));
            }
            parts.push(done);
            cur = Vec::new();
        } else {
            let ghost old_cur = cur@;
            cur.push(s[i]);
            assert(views(parts@).push(cur@) == views(parts@).push(old_cur).update(
                views(parts@).len() as int,
                old_cur.push(s@[i as int]),
            ));
        }
        i = i + 1;
    }
    assert(s@.take(s.len() as int) == s@);
    let last = cur;
    proof {
        assert(views(parts@.push(last)) == views(parts@).push(last@));
    }
    parts.push(last);
    parts
}

/// `s` with every occurrence of `pat` replaced by `rep`, as `replace_all` says.
pub fn replace_all_chars(s: &[char], pat: &[char], rep: &[char]) -> (r: Vec<char>)
    requires
        pat.len() > 0,
    ensures
        r@ == replace_all(s@, pat@, rep@),
{
    let mut out: Vec<char> = Vec::new();
    let mut i: usize = 0;
    assert(s@.skip(0) == s@);
    while i < s.len()
        invariant
            i <= s.len(),
            pat.len() > 0,
            replace_all(s@, pat@, rep@) == out@ + replace_all(s@.skip(i as int), pat@, rep@),
        decreases s.len() - i,
    {
        let ghost rest = s@.skip(i as int);
        if starts_with_at(s, i, pat) {
            let ghost before = out@;
            let mut j: usize = 0;
            while j < rep.len()
                invariant
                    j <= rep.len(),
                    out@ == before + rep@.take(j as int),
                decreases rep.len() - j,
            {
                out.push(rep[j]);
                j = j + 1;
                assert(rep@.take(j as int) == rep@.take(j - 1).push(rep@[j - 1]));
            }
            assert(rep@.take(rep.len() as int) == rep@);
            assert(rest.skip(pat.len() as int) == s@.skip(i + pat.len()));
            i = i + pat.len();
        } else {
            out.push(s[i]);
            assert(rest.drop_first() == s@.skip(i + 1));
            assert(rest[0] == s@[i as int]);
            i = i + 1;
        }
    }
    assert(s@.skip(i as int) == Seq::<char>::empty());
    out
}

} // verus!
