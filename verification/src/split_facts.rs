//! Facts about splitting text: how the pieces of a text joined by a
//! separator come back, and what trimming leaves of a text.
use crate::text::{find_from, matches_at, pat_hit, split, split_from, strip_end, strip_start, Pat};
use vstd::prelude::*;

verus! {

/// The pieces `ps` joined by `sep`.
pub open spec fn join_sep(ps: Seq<Seq<char>>, sep: Seq<char>) -> Seq<char>
    decreases ps.len(),
{
    if ps.len() == 0 {
        Seq::empty()
    } else if ps.len() == 1 {
        ps[0]
    } else {
        ps[0] + sep + join_sep(ps.drop_first(), sep)
    }
}

/// No occurrence of `sep` starts in `p` when `sep` follows `p`.
pub open spec fn no_match_before(p: Seq<char>, sep: Seq<char>) -> bool {
    forall|m: int| 0 <= m < p.len() ==> !matches_at(#[trigger] (p + sep), sep, m)
}

/// No occurrence of `sep` in `p`.
pub open spec fn no_match(p: Seq<char>, sep: Seq<char>) -> bool {
    forall|m: int| !matches_at(p, sep, m)
}

proof fn lemma_matches_at_prefix(p: Seq<char>, sep: Seq<char>, t: Seq<char>, m: int)
    requires
        0 <= m < p.len(),
        sep.len() > 0,
    ensures
        matches_at(p + sep + t, sep, m) == matches_at(p + sep, sep, m),
{
    let s = p + sep + t;
    let q = p + sep;
    if m + sep.len() <= q.len() {
        assert(s.subrange(m, m + sep.len()) =~= q.subrange(m, m + sep.len()));
    }
}

proof fn lemma_find_from_none(s: Seq<char>, sep: Seq<char>, i: int)
    requires
        0 <= i,
        forall|m: int| i <= m ==> !matches_at(s, sep, m),
    ensures
        find_from(s, sep, i) == -1,
    decreases s.len() - i,
{
    if sep.len() == 0 || i + sep.len() > s.len() {
    } else {
        lemma_find_from_none(s, sep, i + 1);
    }
}

proof fn lemma_find_from_at(s: Seq<char>, sep: Seq<char>, i: int, k: int)
    requires
        0 <= i <= k,
        sep.len() > 0,
        matches_at(s, sep, k),
        forall|m: int| i <= m < k ==> !matches_at(s, sep, m),
    ensures
        find_from(s, sep, i) == k,
    decreases k - i,
{
    if i < k {
        lemma_find_from_at(s, sep, i + 1, k);
    }
}

proof fn lemma_find_from_shift(p: Seq<char>, b: Seq<char>, sep: Seq<char>, j: int)
    requires
        0 <= j,
        sep.len() > 0,
    ensures
        find_from(p + b, sep, p.len() + j) == (if find_from(b, sep, j) == -1 {
            -1
        } else {
            p.len() + find_from(b, sep, j)
        }),
    decreases b.len() - j,
{
    let s = p + b;
    let i = p.len() + j;
    if i + sep.len() > s.len() {
    } else {
        assert(s.subrange(i, i + sep.len()) =~= b.subrange(j, j + sep.len()));
        if !matches_at(b, sep, j) {
            lemma_find_from_shift(p, b, sep, j + 1);
        }
    }
}

proof fn lemma_split_from_shift(p: Seq<char>, b: Seq<char>, sep: Seq<char>, j: int)
    requires
        0 <= j <= b.len(),
        sep.len() > 0,
    ensures
        split_from(p + b, sep, p.len() + j) == split_from(b, sep, j),
    decreases b.len() - j,
{
    let s = p + b;
    let i = p.len() + j;
    lemma_find_from_shift(p, b, sep, j);
    crate::text::lemma_find_from_range(b, sep, j);
    let k = find_from(b, sep, j);
    if k < 0 {
        assert(s.subrange(i, s.len() as int) =~= b.subrange(j, b.len() as int));
    } else {
        assert(s.subrange(i, p.len() + k) =~= b.subrange(j, k));
        lemma_split_from_shift(p, b, sep, k + sep.len());
    }
}

/// A text with no occurrence of `sep` is one piece.
pub proof fn lemma_split_whole(a: Seq<char>, sep: Seq<char>)
    requires
        sep.len() > 0,
        no_match(a, sep),
    ensures
        split(a, sep) == seq![a],
{
    lemma_find_from_none(a, sep, 0);
    assert(a.subrange(0, a.len() as int) =~= a);
}

/// Splitting `a`, `sep`, `b` gives `a`, then the pieces of `b`, when no
/// occurrence of `sep` starts in `a`.
pub proof fn lemma_split_concat(a: Seq<char>, sep: Seq<char>, b: Seq<char>)
    requires
        sep.len() > 0,
        no_match_before(a, sep),
    ensures
        split(a + sep + b, sep) == seq![a] + split(b, sep),
{
    let s = a + sep + b;
    assert forall|m: int| 0 <= m < a.len() implies !matches_at(s, sep, m) by {
        lemma_matches_at_prefix(a, sep, b, m);
        assert(!matches_at(a + sep, sep, m));
    }
    assert(s.subrange(a.len() as int, (a.len() + sep.len()) as int) =~= sep);
    lemma_find_from_at(s, sep, 0, a.len() as int);
    assert(s.subrange(0, a.len() as int) =~= a);
    assert(s =~= (a + sep) + b);
    lemma_split_from_shift(a + sep, b, sep, 0);
}

/// The pieces of texts joined by `sep` come back when no occurrence of `sep`
/// starts in a piece followed by `sep`, and none is in the last piece.
pub proof fn lemma_split_join(ps: Seq<Seq<char>>, sep: Seq<char>)
    requires
        ps.len() >= 1,
        sep.len() > 0,
        forall|i: int| 0 <= i < ps.len() - 1 ==> no_match_before(#[trigger] ps[i], sep),
        no_match(ps.last(), sep),
    ensures
        split(join_sep(ps, sep), sep) == ps,
    decreases ps.len(),
{
    if ps.len() == 1 {
        lemma_split_whole(ps[0], sep);
        assert(seq![ps[0]] =~= ps);
    } else {
        let rest = ps.drop_first();
        assert forall|i: int| 0 <= i < rest.len() - 1 implies no_match_before(
            #[trigger] rest[i],
            sep,
        ) by {
            assert(rest[i] == ps[i + 1]);
        }
        lemma_split_join(rest, sep);
        assert(no_match_before(ps[0], sep));
        lemma_split_concat(ps[0], sep, join_sep(rest, sep));
        assert(seq![ps[0]] + rest =~= ps);
    }
}

/// A piece whose characters all differ from the first of `sep` holds no
/// start of `sep`.
pub proof fn lemma_no_match_before_first_char(a: Seq<char>, sep: Seq<char>)
    requires
        sep.len() > 0,
        forall|i: int| 0 <= i < a.len() ==> a[i] != sep[0],
    ensures
        no_match_before(a, sep),
        no_match(a, sep),
{
    assert forall|m: int| 0 <= m < a.len() implies !matches_at(#[trigger] (a + sep), sep, m) by {
        if matches_at(a + sep, sep, m) {
            assert((a + sep).subrange(m, m + sep.len())[0] == sep[0]);
        }
    }
    assert forall|m: int| !matches_at(a, sep, m) by {
        if matches_at(a, sep, m) {
            assert(a.subrange(m, m + sep.len())[0] == sep[0]);
        }
    }
}

// ---------------------------------------------------------------------------
// Trimming
// ---------------------------------------------------------------------------

/// A text whose ends `p` does not hit stays as it is.
pub proof fn lemma_strip_none(s: Seq<char>, p: Pat)
    requires
        s.len() > 0 ==> !pat_hit(p, s[0]) && !pat_hit(p, s.last()),
    ensures
        strip_start(s, p) == s,
        strip_end(s, p) == s,
{
}

/// A character that `p` hits at the start goes.
pub proof fn lemma_strip_start_cons(c: char, s: Seq<char>, p: Pat)
    requires
        pat_hit(p, c),
    ensures
        strip_start(seq![c] + s, p) == strip_start(s, p),
{
    assert((seq![c] + s).drop_first() =~= s);
}

/// A character that `p` hits at the end goes.
pub proof fn lemma_strip_end_snoc(s: Seq<char>, c: char, p: Pat)
    requires
        pat_hit(p, c),
    ensures
        strip_end(s + seq![c], p) == strip_end(s, p),
{
    assert((s + seq![c]).drop_last() =~= s);
}

} // verus!
