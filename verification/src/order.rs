//! Lexicographic ordering of filenames.
//!
//! Filenames embed timestamps by convention, so lexicographic order equals
//! chronological order. Listing returns filenames newest first, that is,
//! sorted in descending lexicographic order by Unicode code point.

use vstd::prelude::*;
use vstd::seq_lib::lemma_sorted_unique;
use vstd::string::StrSliceExecFns;
use vstd::utf8::char_u32_cast;

verus! {

/// The views of a sequence of strings: each filename as its sequence of
/// characters, which is what the contracts in this crate speak about.
pub open spec fn views(v: Seq<String>) -> Seq<Seq<char>> {
    v.map_values(|s: String| s@)
}

/// `a` is lexicographically at most `b`, comparing code points position by
/// position; a strict prefix comes before its extensions.
pub open spec fn lex_leq(a: Seq<char>, b: Seq<char>) -> bool
    decreases a.len(),
{
    if a.len() == 0 {
        true
    } else if b.len() == 0 {
        false
    } else if a[0] == b[0] {
        lex_leq(a.drop_first(), b.drop_first())
    } else {
        (a[0] as u32) < (b[0] as u32)
    }
}

/// A sequence of filenames in descending lexicographic order (newest first).
pub open spec fn sorted_desc(s: Seq<Seq<char>>) -> bool {
    forall|i: int, j: int| 0 <= i < j < s.len() ==> lex_leq(#[trigger] s[j], #[trigger] s[i])
}

/// The order is reflexive.
pub proof fn lemma_lex_leq_reflexive(a: Seq<char>)
    ensures
        lex_leq(a, a),
    decreases a.len(),
{
    if a.len() != 0 {
        lemma_lex_leq_reflexive(a.drop_first());
    }
}

/// Any two sequences are comparable.
pub proof fn lemma_lex_leq_connected(a: Seq<char>, b: Seq<char>)
    ensures
        lex_leq(a, b) || lex_leq(b, a),
    decreases a.len(),
{
    if a.len() == 0 || b.len() == 0 {
    } else if a[0] == b[0] {
        lemma_lex_leq_connected(a.drop_first(), b.drop_first());
    } else {
        char_u32_cast(a[0], a[0] as u32);
        char_u32_cast(b[0], b[0] as u32);
        assert(a[0] as u32 != b[0] as u32);
    }
}

/// Two sequences each at most the other are equal.
pub proof fn lemma_lex_leq_antisymmetric(a: Seq<char>, b: Seq<char>)
    requires
        lex_leq(a, b),
        lex_leq(b, a),
    ensures
        a == b,
    decreases a.len(),
{
    if a.len() == 0 {
        assert(b.len() == 0);
        assert(a =~= b);
    } else {
        assert(b.len() != 0);
        if a[0] == b[0] {
            let at = a.drop_first();
            let bt = b.drop_first();
            assert(lex_leq(at, bt));
            assert(lex_leq(bt, at));
            lemma_lex_leq_antisymmetric(at, bt);
            assert(at == bt);
            assert(a.len() == b.len());
            assert forall|i: int| 0 <= i < a.len() implies a[i] == b[i] by {
                if i != 0 {
                    assert(a[i] == a.drop_first()[i - 1]);
                    assert(b[i] == b.drop_first()[i - 1]);
                }
            }
            assert(a =~= b);
        }
    }
}

/// The order is transitive.
pub proof fn lemma_lex_leq_transitive(a: Seq<char>, b: Seq<char>, c: Seq<char>)
    requires
        lex_leq(a, b),
        lex_leq(b, c),
    ensures
        lex_leq(a, c),
    decreases a.len(),
{
    if a.len() == 0 || b.len() == 0 || c.len() == 0 {
    } else {
        char_u32_cast(a[0], a[0] as u32);
        char_u32_cast(b[0], b[0] as u32);
        char_u32_cast(c[0], c[0] as u32);
        if a[0] == b[0] && b[0] == c[0] {
            lemma_lex_leq_transitive(a.drop_first(), b.drop_first(), c.drop_first());
        } else {
            assert(a[0] as u32 <= b[0] as u32);
            assert(b[0] as u32 <= c[0] as u32);
        }
    }
}

/// Two sequences sorted in descending order out of the same elements are the
/// same sequence: the sorted listing of an index is unique.
pub proof fn lemma_sorted_desc_unique(x: Seq<Seq<char>>, y: Seq<Seq<char>>)
    requires
        sorted_desc(x),
        sorted_desc(y),
        x.to_multiset() == y.to_multiset(),
    ensures
        x == y,
{
    let geq = |p: Seq<char>, q: Seq<char>| lex_leq(q, p);
    assert forall|p: Seq<char>| #[trigger] geq(p, p) by {
        lemma_lex_leq_reflexive(p);
    }
    assert forall|p: Seq<char>, q: Seq<char>| #[trigger] geq(p, q) && #[trigger] geq(q, p)
        implies p == q by {
        lemma_lex_leq_antisymmetric(p, q);
    }
    assert forall|p: Seq<char>, q: Seq<char>, s: Seq<char>|
        #[trigger] geq(p, q) && #[trigger] geq(q, s) implies geq(p, s) by {
        lemma_lex_leq_transitive(s, q, p);
    }
    assert forall|p: Seq<char>, q: Seq<char>| #[trigger] geq(p, q) || #[trigger] geq(q, p) by {
        lemma_lex_leq_connected(p, q);
    }
    assert(vstd::relations::sorted_by(x, geq));
    assert(vstd::relations::sorted_by(y, geq));
    lemma_sorted_unique(x, y, geq);
    assert(x =~= y);
}

/// Decides `lex_leq` on string slices by comparing characters left to right.
pub fn str_leq(a: &str, b: &str) -> (r: bool)
    ensures
        r == lex_leq(a@, b@),
{
    let alen = a.unicode_len();
    let blen = b.unicode_len();
    let mut i: usize = 0;
    proof {
        assert(a@.skip(0) =~= a@);
        assert(b@.skip(0) =~= b@);
    }
    while i < alen
        invariant
            i <= alen,
            i <= blen,
            alen == a@.len(),
            blen == b@.len(),
            lex_leq(a@, b@) == lex_leq(a@.skip(i as int), b@.skip(i as int)),
        decreases alen - i,
    {
        if i == blen {
            proof {
                assert(b@.skip(i as int).len() == 0);
                assert(a@.skip(i as int).len() > 0);
            }
            return false;
        }
        let ca = a.get_char(i);
        let cb = b.get_char(i);
        proof {
            assert(a@.skip(i as int)[0] == a@[i as int]);
            assert(b@.skip(i as int)[0] == b@[i as int]);
        }
        if ca != cb {
            return (ca as u32) < (cb as u32);
        }
        proof {
            assert(a@.skip(i as int).drop_first() =~= a@.skip(i as int + 1));
            assert(b@.skip(i as int).drop_first() =~= b@.skip(i as int + 1));
        }
        i = i + 1;
    }
    proof {
        assert(a@.skip(i as int).len() == 0);
    }
    true
}

/// Mapping string views distributes over inserting one element.
proof fn lemma_views_insert(v: Seq<String>, p: int, s: String)
    requires
        0 <= p <= v.len(),
    ensures
        views(v.insert(p, s)) == views(v).insert(p, s@),
{
    v.insert_ensures(p, s);
    views(v).insert_ensures(p, s@);
    assert(views(v.insert(p, s)) =~= views(v).insert(p, s@));
}

/// Sorts filenames in descending lexicographic order (newest first), by
/// insertion into an already sorted prefix.
pub fn sort_desc(v: Vec<String>) -> (r: Vec<String>)
    ensures
        views(r@).to_multiset() == views(v@).to_multiset(),
        sorted_desc(views(r@)),
{
    let mut r: Vec<String> = Vec::new();
    let mut idx: usize = 0;
    proof {
        assert(views(v@.take(0)) =~= Seq::<Seq<char>>::empty());
        assert(views(r@) =~= Seq::<Seq<char>>::empty());
    }
    while idx < v.len()
        invariant
            idx <= v@.len(),
            sorted_desc(views(r@)),
            views(r@).to_multiset() == views(v@.take(idx as int)).to_multiset(),
        decreases v@.len() - idx,
    {
        let s = v[idx].clone();
        let mut p: usize = 0;
        while p < r.len()
            invariant
                p <= r@.len(),
                forall|k: int| 0 <= k < p ==> lex_leq(s@, #[trigger] views(r@)[k]),
            ensures
                p <= r@.len(),
                forall|k: int| 0 <= k < p ==> lex_leq(s@, #[trigger] views(r@)[k]),
                p < r@.len() ==> !lex_leq(s@, views(r@)[p as int]),
            decreases r@.len() - p,
        {
            if !str_leq(s.as_str(), r[p].as_str()) {
                break;
            }
            p += 1;
        }
        let ghost prev = r@;
        r.insert(p, s);
        proof {
            lemma_views_insert(prev, p as int, s);
            views(prev).insert_ensures(p as int, s@);
            assert forall|i: int, j: int| 0 <= i < j < views(r@).len() implies lex_leq(
                #[trigger] views(r@)[j],
                #[trigger] views(r@)[i],
            ) by {
                if j < p {
                    assert(views(r@)[i] == views(prev)[i]);
                    assert(views(r@)[j] == views(prev)[j]);
                } else if j == p {
                    assert(views(r@)[j] == s@);
                    assert(views(r@)[i] == views(prev)[i]);
                } else {
                    assert(views(r@)[j] == views(prev)[j - 1]);
                    lemma_lex_leq_connected(s@, views(prev)[p as int]);
                    if j - 1 > p {
                        lemma_lex_leq_transitive(
                            views(prev)[j - 1],
                            views(prev)[p as int],
                            s@,
                        );
                    }
                    if i < p {
                        assert(views(r@)[i] == views(prev)[i]);
                        lemma_lex_leq_transitive(views(r@)[j], s@, views(prev)[i]);
                    } else if i == p {
                        assert(views(r@)[i] == s@);
                    } else {
                        assert(views(r@)[i] == views(prev)[i - 1]);
                    }
                }
            }
            assert(views(r@) == views(prev).insert(p as int, s@));
            vstd::seq_lib::to_multiset_insert(views(prev), p as int, s@);
            assert(views(r@).to_multiset() == views(prev).to_multiset().insert(s@));
            assert(s == v@[idx as int]);
            assert(views(v@.take(idx + 1)) =~= views(v@.take(idx as int)).push(v@[idx as int]@));
            vstd::seq_lib::to_multiset_build(views(v@.take(idx as int)), v@[idx as int]@);
            assert(views(v@.take(idx + 1)).to_multiset() == views(
                v@.take(idx as int),
            ).to_multiset().insert(v@[idx as int]@));
            assert(views(r@).to_multiset() == views(v@.take(idx + 1)).to_multiset());
        }
        idx += 1;
    }
    proof {
        assert(v@.take(v@.len() as int) =~= v@);
    }
    r
}

} // verus!
