//! The order of `String`s: lexicographic by character (`str`'s `Ord` compares
//! UTF-8 bytes, which orders strings exactly as comparing their characters by
//! code point does), and an insertion sort by it.
use vstd::prelude::*;
use vstd::relations::{sorted_by, total_ordering};

use crate::text::views;

verus! {

/// `a` sorts before or equal to `b`.
pub open spec fn lex_le(a: Seq<char>, b: Seq<char>) -> bool
    decreases a.len(),
{
    if a.len() == 0 {
        true
    } else if b.len() == 0 {
        false
    } else if a[0] != b[0] {
        (a[0] as u32) < (b[0] as u32)
    } else {
        lex_le(a.drop_first(), b.drop_first())
    }
}

/// `lex_le` as a relation.
pub open spec fn by_lex() -> spec_fn(Seq<char>, Seq<char>) -> bool {
    |a: Seq<char>, b: Seq<char>| lex_le(a, b)
}

proof fn lemma_lex_refl(a: Seq<char>)
    ensures
        lex_le(a, a),
    decreases a.len(),
{
    if a.len() > 0 {
        lemma_lex_refl(a.drop_first());
    }
}

proof fn lemma_lex_antisym(a: Seq<char>, b: Seq<char>)
    requires
        lex_le(a, b),
        lex_le(b, a),
    ensures
        a == b,
    decreases a.len(),
{
    if a.len() > 0 && b.len() > 0 {
        if a[0] == b[0] {
            lemma_lex_antisym(a.drop_first(), b.drop_first());
            assert(a =~= seq![a[0]] + a.drop_first());
            assert(b =~= seq![b[0]] + b.drop_first());
        } else {
            char_u32_distinct(a[0], b[0]);
        }
    } else {
        assert(a =~= b);
    }
}

proof fn char_u32_distinct(x: char, y: char)
    requires
        x != y,
    ensures
        (x as u32) != (y as u32),
{
}

proof fn lemma_lex_trans(a: Seq<char>, b: Seq<char>, c: Seq<char>)
    requires
        lex_le(a, b),
        lex_le(b, c),
    ensures
        lex_le(a, c),
    decreases a.len(),
{
    if a.len() > 0 && b.len() > 0 && c.len() > 0 {
        if a[0] == b[0] && b[0] == c[0] {
            lemma_lex_trans(a.drop_first(), b.drop_first(), c.drop_first());
        } else {
            if a[0] != b[0] {
                char_u32_distinct(a[0], b[0]);
            }
            if b[0] != c[0] {
                char_u32_distinct(b[0], c[0]);
            }
            if a[0] != c[0] {
                char_u32_distinct(a[0], c[0]);
            }
        }
    }
}

proof fn lemma_lex_total(a: Seq<char>, b: Seq<char>)
    ensures
        lex_le(a, b) || lex_le(b, a),
    decreases a.len(),
{
    if a.len() > 0 && b.len() > 0 {
        if a[0] == b[0] {
            lemma_lex_total(a.drop_first(), b.drop_first());
        } else {
            char_u32_distinct(a[0], b[0]);
        }
    }
}

/// Character-lexicographic order is a total order.
pub proof fn lemma_lex_total_ordering()
    ensures
        total_ordering(by_lex()),
{
    assert forall|x: Seq<char>| #[trigger] by_lex()(x, x) by {
        lemma_lex_refl(x);
    }
    assert forall|x: Seq<char>, y: Seq<char>| #[trigger] by_lex()(x, y) && #[trigger] by_lex()(y, x) implies x == y by {
        lemma_lex_antisym(x, y);
    }
    assert forall|x: Seq<char>, y: Seq<char>, z: Seq<char>| #[trigger] by_lex()(x, y) && #[trigger] by_lex()(y, z) implies by_lex()(x, z) by {
        lemma_lex_trans(x, y, z);
    }
    assert forall|x: Seq<char>, y: Seq<char>| #[trigger] by_lex()(x, y) || #[trigger] by_lex()(y, x) by {
        lemma_lex_total(x, y);
    }
}

/// `lex_le` on character slices.
pub fn lex_le_chars(a: &[char], b: &[char]) -> (r: bool)
    ensures
        r == lex_le(a@, b@),
{
    let mut i: usize = 0;
    assert(a@.skip(0) =~= a@ && b@.skip(0) =~= b@);
    while i < a.len() && i < b.len() && a[i] == b[i]
        invariant
            i <= a@.len(),
            i <= b@.len(),
            lex_le(a@, b@) == lex_le(a@.skip(i as int), b@.skip(i as int)),
        decreases a.len() - i,
    {
        assert(a@.skip(i as int).drop_first() =~= a@.skip(i + 1));
        assert(b@.skip(i as int).drop_first() =~= b@.skip(i + 1));
        i += 1;
    }
    if i == a.len() {
        true
    } else if i == b.len() {
        false
    } else {
        (a[i] as u32) < (b[i] as u32)
    }
}

/// Sort character vectors into `by_lex` order.
pub fn sort_lex(v: Vec<Vec<char>>) -> (r: Vec<Vec<char>>)
    ensures
        views(r@) == views(v@).sort_by(by_lex()),
{
    proof {
        lemma_lex_total_ordering();
    }
    let mut out: Vec<Vec<char>> = Vec::new();
    let mut rest = v;
    let ghost orig = views(rest@);
    let mut i: usize = 0;
    let n = rest.len();
    assert(views(out@) =~= seq![]);
    assert(orig.take(0) =~= seq![]);
    while i < n
        invariant
            n == rest@.len(),
            orig == views(rest@),
            i <= n,
            total_ordering(by_lex()),
            sorted_by(views(out@), by_lex()),
            views(out@).to_multiset() == orig.take(i as int).to_multiset(),
        decreases n - i,
    {
        let x = rest[i].clone();
        assert(x@ == orig[i as int]);
        let mut j: usize = 0;
        while j < out.len() && !lex_le_chars(&x, &out[j])
            invariant
                j <= out@.len(),
                forall|k: int| 0 <= k < j ==> !lex_le(x@, #[trigger] views(out@)[k]),
            decreases out.len() - j,
        {
            j += 1;
        }
        let ghost before = views(out@);
        out.insert(j, x);
        proof {
            let after = views(out@);
            assert(after =~= before.insert(j as int, x@));
            assert forall|a: int, b: int| 0 <= a < b < after.len() implies #[trigger] by_lex()(after[a], after[b]) by {
                if a < j && b < j {
                    assert(after[a] == before[a] && after[b] == before[b]);
                } else if a < j && b == j {
                    assert(after[a] == before[a]);
                    lemma_lex_total(x@, before[a]);
                } else if a < j && b > j {
                    assert(after[a] == before[a] && after[b] == before[b - 1]);
                } else if a == j {
                    assert(after[b] == before[b - 1]);
                    assert(lex_le(x@, before[j as int]));
                    if b - 1 > j {
                        assert(by_lex()(before[j as int], before[b - 1]));
                        lemma_lex_trans(x@, before[j as int], before[b - 1]);
                    }
                } else {
                    assert(after[a] == before[a - 1] && after[b] == before[b - 1]);
                }
            }
            vstd::seq_lib::to_multiset_insert(before, j as int, x@);
            vstd::seq_lib::to_multiset_build(orig.take(i as int), orig[i as int]);
            assert(orig.take(i + 1) =~= orig.take(i as int).push(orig[i as int]));
        }
        i += 1;
    }
    proof {
        assert(orig.take(n as int) =~= orig);
        orig.lemma_sort_by_ensures(by_lex());
        vstd::seq_lib::lemma_sorted_unique(views(out@), orig.sort_by(by_lex()), by_lex());
    }
    out
}

} // verus!

verus! {

/// The order of `(name, flag)` pairs: by name, then `false` before `true`
/// (the derived order of `(String, bool)`).
pub open spec fn pair_le(p: (Seq<char>, bool), q: (Seq<char>, bool)) -> bool {
    (lex_le(p.0, q.0) && p.0 != q.0) || (p.0 == q.0 && (!p.1 || q.1))
}

/// `pair_le` as a relation.
pub open spec fn by_pair() -> spec_fn((Seq<char>, bool), (Seq<char>, bool)) -> bool {
    |p: (Seq<char>, bool), q: (Seq<char>, bool)| pair_le(p, q)
}

proof fn lemma_pair_total(p: (Seq<char>, bool), q: (Seq<char>, bool))
    ensures
        pair_le(p, q) || pair_le(q, p),
{
    lemma_lex_total(p.0, q.0);
}

proof fn lemma_pair_trans(p: (Seq<char>, bool), q: (Seq<char>, bool), r: (Seq<char>, bool))
    requires
        pair_le(p, q),
        pair_le(q, r),
    ensures
        pair_le(p, r),
{
    if p.0 != q.0 && q.0 != r.0 {
        lemma_lex_trans(p.0, q.0, r.0);
        if p.0 == r.0 {
            lemma_lex_antisym(p.0, q.0);
        }
    }
}

/// The pair order is a total order.
pub proof fn lemma_pair_total_ordering()
    ensures
        total_ordering(by_pair()),
{
    assert forall|x: (Seq<char>, bool)| #[trigger] by_pair()(x, x) by {
        lemma_lex_refl(x.0);
    }
    assert forall|x: (Seq<char>, bool), y: (Seq<char>, bool)| #[trigger] by_pair()(x, y) && #[trigger] by_pair()(y, x) implies x == y by {
        if x.0 != y.0 {
            lemma_lex_antisym(x.0, y.0);
        }
    }
    assert forall|x: (Seq<char>, bool), y: (Seq<char>, bool), z: (Seq<char>, bool)| #[trigger] by_pair()(x, y) && #[trigger] by_pair()(y, z) implies by_pair()(x, z) by {
        lemma_pair_trans(x, y, z);
    }
    assert forall|x: (Seq<char>, bool), y: (Seq<char>, bool)| #[trigger] by_pair()(x, y) || #[trigger] by_pair()(y, x) by {
        lemma_pair_total(x, y);
    }
}

/// The views of a sequence of `(name, flag)` pairs.
pub open spec fn pair_views(v: Seq<(Vec<char>, bool)>) -> Seq<(Seq<char>, bool)> {
    v.map_values(|p: (Vec<char>, bool)| (p.0@, p.1))
}

fn pair_le_exec(p: &(Vec<char>, bool), q: &(Vec<char>, bool)) -> (r: bool)
    ensures
        r == pair_le((p.0@, p.1), (q.0@, q.1)),
{
    let same = crate::text::chars_eq(&p.0, &q.0);
    if same {
        !p.1 || q.1
    } else {
        lex_le_chars(&p.0, &q.0)
    }
}

/// Sort `(name, flag)` pairs into `pair_le` order.
pub fn sort_pairs(v: Vec<(Vec<char>, bool)>) -> (r: Vec<(Vec<char>, bool)>)
    ensures
        pair_views(r@) == pair_views(v@).sort_by(by_pair()),
{
    proof {
        lemma_pair_total_ordering();
    }
    let mut out: Vec<(Vec<char>, bool)> = Vec::new();
    let rest = v;
    let ghost orig = pair_views(rest@);
    let mut i: usize = 0;
    let n = rest.len();
    assert(pair_views(out@) =~= seq![]);
    assert(orig.take(0) =~= seq![]);
    while i < n
        invariant
            n == rest@.len(),
            orig == pair_views(rest@),
            i <= n,
            total_ordering(by_pair()),
            sorted_by(pair_views(out@), by_pair()),
            pair_views(out@).to_multiset() == orig.take(i as int).to_multiset(),
        decreases n - i,
    {
        let x = (rest[i].0.clone(), rest[i].1);
        let ghost xv = (x.0@, x.1);
        assert(xv == orig[i as int]);
        let mut j: usize = 0;
        while j < out.len() && !pair_le_exec(&x, &out[j])
            invariant
                j <= out@.len(),
                xv == (x.0@, x.1),
                forall|k: int| 0 <= k < j ==> !pair_le(xv, #[trigger] pair_views(out@)[k]),
            decreases out.len() - j,
        {
            assert(pair_views(out@)[j as int] == (out@[j as int].0@, out@[j as int].1));
            j += 1;
        }
        if j < out.len() {
            assert(pair_views(out@)[j as int] == (out@[j as int].0@, out@[j as int].1));
        }
        let ghost before = pair_views(out@);
        out.insert(j, x);
        proof {
            let after = pair_views(out@);
            assert(after =~= before.insert(j as int, xv));
            assert forall|a: int, b: int| 0 <= a < b < after.len() implies #[trigger] by_pair()(after[a], after[b]) by {
                if a < j && b < j {
                    assert(after[a] == before[a] && after[b] == before[b]);
                } else if a < j && b == j {
                    assert(after[a] == before[a]);
                    lemma_pair_total(xv, before[a]);
                } else if a < j && b > j {
                    assert(after[a] == before[a] && after[b] == before[b - 1]);
                } else if a == j {
                    assert(after[b] == before[b - 1]);
                    assert(pair_le(xv, before[j as int]));
                    if b - 1 > j {
                        assert(by_pair()(before[j as int], before[b - 1]));
                        lemma_pair_trans(xv, before[j as int], before[b - 1]);
                    }
                } else {
                    assert(after[a] == before[a - 1] && after[b] == before[b - 1]);
                }
            }
            vstd::seq_lib::to_multiset_insert(before, j as int, xv);
            vstd::seq_lib::to_multiset_build(orig.take(i as int), orig[i as int]);
            assert(orig.take(i + 1) =~= orig.take(i as int).push(orig[i as int]));
        }
        i += 1;
    }
    proof {
        assert(orig.take(n as int) =~= orig);
        orig.lemma_sort_by_ensures(by_pair());
        vstd::seq_lib::lemma_sorted_unique(pair_views(out@), orig.sort_by(by_pair()), by_pair());
    }
    out
}

} // verus!
