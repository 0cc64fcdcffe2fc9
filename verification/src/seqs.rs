use vstd::prelude::*;
use vstd::seq_lib::*;

verus! {

/// Two sequences are rearrangements of each other: the same items, each as often.
pub open spec fn is_permutation<A>(a: Seq<A>, b: Seq<A>) -> bool {
    a.to_multiset() == b.to_multiset()
}

/// Rearranging a sequence rearranges its image under any function.
pub proof fn lemma_permutation_map<A, B>(s1: Seq<A>, s2: Seq<A>, f: spec_fn(A) -> B)
    requires
        is_permutation(s1, s2),
    ensures
        is_permutation(s1.map_values(f), s2.map_values(f)),
    decreases s1.len(),
{
    broadcast use group_to_multiset_ensures;
    broadcast use vstd::multiset::group_multiset_axioms;

    to_multiset_len(s1);
    to_multiset_len(s2);
    if s1.len() == 0 {
        assert(s2.len() == 0);
        assert(s1.map_values(f) =~= s2.map_values(f));
    } else {
        let x = s1.last();
        assert(s1.contains(x)) by {
            assert(s1[s1.len() - 1] == x);
        }
        assert(s1.to_multiset().count(x) > 0);
        assert(s2.contains(x));
        let k = choose|k: int| 0 <= k < s2.len() && s2[k] == x;
        let r2 = s2.remove(k);
        let r1 = s1.drop_last();
        assert(r1 =~= s1.remove(s1.len() - 1));
        assert(r1.to_multiset() == s1.to_multiset().remove(x));
        assert(r2.to_multiset() == s2.to_multiset().remove(x));
        lemma_permutation_map(r1, r2, f);
        let m1 = s1.map_values(f);
        let m2 = s2.map_values(f);
        assert(r1.map_values(f) =~= m1.remove(m1.len() - 1));
        assert(r2.map_values(f) =~= m2.remove(k));
        assert(m1[m1.len() - 1] == f(x));
        assert(m2[k] == f(x));
        assert(m1.remove(m1.len() - 1).to_multiset() == m1.to_multiset().remove(f(x)));
        assert(m2.remove(k).to_multiset() == m2.to_multiset().remove(f(x)));
        assert(m1.contains(f(x))) by {
            assert(m1[m1.len() - 1] == f(x));
        }
        assert(m2.contains(f(x))) by {
            assert(m2[k] == f(x));
        }
        assert(m1.to_multiset() =~= m1.to_multiset().remove(f(x)).insert(f(x)));
        assert(m2.to_multiset() =~= m2.to_multiset().remove(f(x)).insert(f(x)));
    }
}

/// Rearranging the pieces of a sequence of sequences rearranges the items of its flattening.
pub proof fn lemma_permutation_flatten<A>(s1: Seq<Seq<A>>, s2: Seq<Seq<A>>)
    requires
        is_permutation(s1, s2),
    ensures
        is_permutation(s1.flatten(), s2.flatten()),
    decreases s1.len(),
{
    broadcast use group_to_multiset_ensures;
    broadcast use vstd::multiset::group_multiset_axioms;
    broadcast use lemma_multiset_commutative;

    to_multiset_len(s1);
    to_multiset_len(s2);
    if s1.len() == 0 {
        assert(s2.len() == 0);
        assert(s1 =~= s2);
    } else {
        let x = s1.last();
        assert(s1.contains(x)) by {
            assert(s1[s1.len() - 1] == x);
        }
        assert(s1.to_multiset().count(x) > 0);
        assert(s2.contains(x));
        let k = choose|k: int| 0 <= k < s2.len() && s2[k] == x;
        let r1 = s1.drop_last();
        let r2 = s2.remove(k);
        assert(r1 =~= s1.remove(s1.len() - 1));
        assert(r1.to_multiset() == s1.to_multiset().remove(x));
        assert(r2.to_multiset() == s2.to_multiset().remove(x));
        lemma_permutation_flatten(r1, r2);
        assert(s1 =~= r1.push(x));
        r1.lemma_flatten_push(x);
        let a = s2.take(k);
        let b = s2.skip(k + 1);
        assert(s2 =~= a + seq![x] + b);
        assert(r2 =~= a + b);
        lemma_flatten_concat(a + seq![x], b);
        lemma_flatten_concat(a, seq![x]);
        lemma_flatten_concat(a, b);
        seq![x].lemma_flatten_one_element();
        assert(s2.flatten() =~= a.flatten() + x + b.flatten());
        assert(r2.flatten() =~= a.flatten() + b.flatten());
        let fa = a.flatten();
        let fb = b.flatten();
        lemma_multiset_commutative(fa + x, fb);
        lemma_multiset_commutative(fa, x);
        lemma_multiset_commutative(fa, fb);
        lemma_multiset_commutative(r1.flatten(), x);
        assert(s2.flatten().to_multiset() =~= fa.to_multiset().add(x.to_multiset()).add(
            fb.to_multiset(),
        ));
        assert(r2.flatten().to_multiset() =~= fa.to_multiset().add(fb.to_multiset()));
        assert(s1.flatten().to_multiset() =~= r1.flatten().to_multiset().add(x.to_multiset()));
        assert(fa.to_multiset().add(x.to_multiset()).add(fb.to_multiset()) =~= fa.to_multiset().add(
            fb.to_multiset(),
        ).add(x.to_multiset()));
        assert(s1.flatten().to_multiset() =~= s2.flatten().to_multiset());
    }
}

/// A piece of a sequence of sequences shows up, whole and contiguous, in its flattening.
pub proof fn lemma_flatten_piece<A>(s: Seq<Seq<A>>, k: int)
    requires
        0 <= k < s.len(),
    ensures
        s.flatten().subrange(
            s.take(k).flatten().len() as int,
            (s.take(k).flatten().len() + s[k].len()) as int,
        ) == s[k],
{
    let a = s.take(k);
    let b = s.skip(k + 1);
    assert(s =~= a + seq![s[k]] + b);
    lemma_flatten_concat(a + seq![s[k]], b);
    lemma_flatten_concat(a, seq![s[k]]);
    seq![s[k]].lemma_flatten_one_element();
    assert(s.flatten() =~= a.flatten() + s[k] + b.flatten());
    assert(s.flatten().subrange(a.flatten().len() as int, (a.flatten().len() + s[k].len()) as int)
        =~= s[k]);
}

} // verus!
