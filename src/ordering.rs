//! Lexicographic order on lines, sorting, and joining lines into one text.

use vstd::prelude::*;
use crate::text::{append_chars, slice_chars, views};

verus! {

/// `a` comes no later than `b` in lexicographic order by code point: the
/// order of `Ord` on `Vec<char>` and on `str`.
pub open spec fn lex_le(a: Seq<char>, b: Seq<char>) -> bool
    decreases a.len(),
{
    if a.len() == 0 {
        true
    } else if b.len() == 0 {
        false
    } else if a[0] != b[0] {
        (a[0] as u32) < (b[0] as u32)
    } else {
        lex_le(a.drop_first(), b.drop_first())
    }
}

/// Every line comes no later than the lines after it.
pub open spec fn sorted_lex(s: Seq<Seq<char>>) -> bool {
    forall|i: int, j: int| 0 <= i < j < s.len() ==> lex_le(#[trigger] s[i], #[trigger] s[j])
}

/// The lines of `s` joined by `\n`, with no newline after the last.
pub open spec fn join_lines(s: Seq<Seq<char>>) -> Seq<char>
    decreases s.len(),
{
    if s.len() == 0 {
        Seq::empty()
    } else if s.len() == 1 {
        s[0]
    } else {
        join_lines(s.drop_last()) + seq!['\n'] + s.last()
    }
}

/// Lexicographic order is antisymmetric.
pub proof fn lemma_lex_antisymmetric(a: Seq<char>, b: Seq<char>)
    requires
        lex_le(a, b),
        lex_le(b, a),
    ensures
        a == b,
    decreases a.len(),
{
    if a.len() > 0 && b.len() > 0 && a[0] == b[0] {
        lemma_lex_antisymmetric(a.drop_first(), b.drop_first());
        assert(a =~= seq![a[0]] + a.drop_first());
        assert(b =~= seq![b[0]] + b.drop_first());
    } else if a.len() == 0 && b.len() == 0 {
        assert(a =~= b);
    }
}

/// Two sorted arrangements of the same lines are the same sequence.
pub proof fn lemma_sorted_unique(s1: Seq<Seq<char>>, s2: Seq<Seq<char>>)
    requires
        sorted_lex(s1),
        sorted_lex(s2),
        s1.to_multiset() == s2.to_multiset(),
    ensures
        s1 == s2,
    decreases s1.len(),
{
    broadcast use vstd::seq_lib::group_to_multiset_ensures;

    assert(s1.len() == s1.to_multiset().len());
    assert(s2.len() == s2.to_multiset().len());
    if s1.len() > 0 {
        let a = s1[0];
        let b = s2[0];
        assert(s2.to_multiset().count(b) > 0);
        assert(s1.contains(b));
        let i = choose|i: int| 0 <= i < s1.len() && s1[i] == b;
        if i > 0 {
            assert(lex_le(s1[0], s1[i]));
        } else {
            assert(a == b);
        }
        assert(s1.contains(a));
        assert(s1.to_multiset().count(a) > 0);
        assert(s2.to_multiset().count(a) > 0);
        assert(s2.contains(a));
        let j = choose|j: int| 0 <= j < s2.len() && s2[j] == a;
        if j > 0 {
            assert(lex_le(s2[0], s2[j]));
        } else {
            assert(a == b);
        }
        if a != b {
            lemma_lex_antisymmetric(a, b);
        }
        let t1 = s1.remove(0);
        let t2 = s2.remove(0);
        assert(t1.to_multiset() == s1.to_multiset().remove(a));
        assert(t2.to_multiset() == s2.to_multiset().remove(b));
        assert(sorted_lex(t1)) by {
            assert forall|x: int, y: int| 0 <= x < y < t1.len() implies lex_le(
                #[trigger] t1[x],
                #[trigger] t1[y],
            ) by {
                assert(t1[x] == s1[x + 1] && t1[y] == s1[y + 1]);
            }
        }
        assert(sorted_lex(t2)) by {
            assert forall|x: int, y: int| 0 <= x < y < t2.len() implies lex_le(
                #[trigger] t2[x],
                #[trigger] t2[y],
            ) by {
                assert(t2[x] == s2[x + 1] && t2[y] == s2[y + 1]);
            }
        }
        lemma_sorted_unique(t1, t2);
        assert(s1 =~= seq![a] + t1);
        assert(s2 =~= seq![b] + t2);
    } else {
        assert(s1 =~= s2);
    }
}

/// Relies on `slice::sort` with `Ord` for `Vec<char>`: afterwards the vector
/// holds the same lines in ascending lexicographic order.
#[verifier::external_body]
pub(crate) fn sort_lines(v: &mut Vec<Vec<char>>)
    ensures
        views(final(v)@).to_multiset() == views(old(v)@).to_multiset(),
        sorted_lex(views(final(v)@)),
{
    v.sort();
}

/// The lines of `a` followed by the lines of `b`.
pub fn concat_lines(a: &Vec<Vec<char>>, b: &Vec<Vec<char>>) -> (r: Vec<Vec<char>>)
    ensures
        views(r@) == views(a@) + views(b@),
{
    let mut r: Vec<Vec<char>> = Vec::new();
    let mut k: usize = 0;
    while k < a.len()
        invariant
            k <= a.len(),
            views(r@) == views(a@).subrange(0, k as int),
        decreases a.len() - k,
    {
        let ghost before = views(r@);
        r.push(slice_chars(&a[k], 0, a[k].len()));
        assert(a@[k as int]@.subrange(0, a@[k as int]@.len() as int) =~= a@[k as int]@);
        assert(views(r@) =~= before.push(a@[k as int]@));
        assert(views(r@) =~= views(a@).subrange(0, k + 1));
        k = k + 1;
    }
    let mut m: usize = 0;
    while m < b.len()
        invariant
            m <= b.len(),
            views(r@) == views(a@) + views(b@).subrange(0, m as int),
        decreases b.len() - m,
    {
        let ghost before = views(r@);
        r.push(slice_chars(&b[m], 0, b[m].len()));
        assert(b@[m as int]@.subrange(0, b@[m as int]@.len() as int) =~= b@[m as int]@);
        assert(views(r@) =~= before.push(b@[m as int]@));
        assert(views(r@) =~= views(a@) + views(b@).subrange(0, m + 1));
        m = m + 1;
    }
    assert(views(a@).subrange(0, a.len() as int) =~= views(a@));
    assert(views(b@).subrange(0, b.len() as int) =~= views(b@));
    r
}

/// `join_lines`, computed.
pub fn join_chars(v: &Vec<Vec<char>>) -> (r: Vec<char>)
    ensures
        r@ == join_lines(views(v@)),
{
    let mut r: Vec<char> = Vec::new();
    let mut k: usize = 0;
    while k < v.len()
        invariant
            k <= v.len(),
            r@ == join_lines(views(v@).subrange(0, k as int)),
        decreases v.len() - k,
    {
        let ghost before = r@;
        if k > 0 {
            r.push('\n');
        }
        append_chars(&mut r, &v[k]);
        let ghost s = views(v@).subrange(0, k + 1);
        assert(s.drop_last() =~= views(v@).subrange(0, k as int));
        if k == 0 {
            assert(r@ =~= s[0]);
        } else {
            assert(r@ =~= before + seq!['\n'] + s.last());
        }
        k = k + 1;
    }
    assert(views(v@).subrange(0, v.len() as int) =~= views(v@));
    r
}

} // verus!
