//! Association lists viewed as mathematical maps.
//!
//! The caches and the transaction write buffer all keep entry lists with
//! pairwise-distinct keys; these spec functions and lemmas relate such a
//! list to the map it names.

use vstd::prelude::*;

verus! {

/// Whether some entry among the first `n` carries the key `k`.
pub open spec fn assoc_has_key<K: View, V>(s: Seq<(K, V)>, n: int, k: K::V) -> bool {
    exists|i: int| 0 <= i < n && s[i].0@ == k
}

/// The map named by an entry list.
pub open spec fn assoc_view<K: View, V: View>(s: Seq<(K, V)>) -> Map<K::V, V::V> {
    Map::new(
        |k: K::V| assoc_has_key(s, s.len() as int, k),
        |k: K::V|
            {
                let i = choose|i: int| 0 <= i < s.len() && s[i].0@ == k;
                s[i].1@
            },
    )
}

/// Each key of the entry list is listed exactly once.
pub open spec fn assoc_wf<K: View, V>(s: Seq<(K, V)>) -> bool {
    forall|i: int, j: int| 0 <= i < j < s.len() ==> s[i].0@ != s[j].0@
}

/// A listed entry is what the entry list's map returns for its key.
pub proof fn lemma_assoc_lookup<K: View, V: View>(s: Seq<(K, V)>, i: int)
    requires
        assoc_wf(s),
        0 <= i < s.len(),
    ensures
        assoc_view(s).dom().contains(s[i].0@),
        assoc_view(s)[s[i].0@] == s[i].1@,
{
    let k = s[i].0@;
    assert(assoc_has_key(s, s.len() as int, k));
    let j = choose|j: int| 0 <= j < s.len() && s[j].0@ == k;
    assert(j == i);
}

/// Replacing the value of one entry, keys untouched, is a map insert on that
/// entry's key.
pub proof fn lemma_assoc_update<K: View, V: View>(pre: Seq<(K, V)>, post: Seq<(K, V)>, i: int)
    requires
        assoc_wf(pre),
        0 <= i < pre.len(),
        post.len() == pre.len(),
        forall|t: int| 0 <= t < pre.len() ==> post[t].0@ == pre[t].0@,
        forall|t: int| 0 <= t < pre.len() && t != i ==> post[t].1@ == pre[t].1@,
    ensures
        assoc_wf(post),
        assoc_view(post) == assoc_view(pre).insert(pre[i].0@, post[i].1@),
{
    assert forall|q: K::V| #[trigger] assoc_view(post).dom().contains(q) implies assoc_view(
        pre,
    ).insert(pre[i].0@, post[i].1@).dom().contains(q) by {
        let t = choose|t: int| 0 <= t < post.len() && post[t].0@ == q;
        if t != i {
            assert(pre[t].0@ == q);
        }
    }
    assert forall|q: K::V| #[trigger] assoc_view(pre).insert(pre[i].0@, post[i].1@).dom().contains(
        q,
    ) implies assoc_view(post).dom().contains(q) by {
        if q == pre[i].0@ {
            assert(post[i].0@ == q);
        } else {
            let t = choose|t: int| 0 <= t < pre.len() && pre[t].0@ == q;
            assert(post[t].0@ == q);
        }
    }
    assert forall|q: K::V| #[trigger] assoc_view(post).dom().contains(q) implies assoc_view(post)[q]
        == assoc_view(pre).insert(pre[i].0@, post[i].1@)[q] by {
        let t = choose|t: int| 0 <= t < post.len() && post[t].0@ == q;
        lemma_assoc_lookup(post, t);
        if t != i {
            assert(pre[t].0@ == q);
            lemma_assoc_lookup(pre, t);
        }
    }
    assert(assoc_view(post) =~= assoc_view(pre).insert(pre[i].0@, post[i].1@));
}

/// Appending an entry with a fresh key is a map insert.
pub proof fn lemma_assoc_append<K: View, V: View>(pre: Seq<(K, V)>, post: Seq<(K, V)>)
    requires
        assoc_wf(pre),
        post.len() == pre.len() + 1,
        forall|t: int| 0 <= t < pre.len() ==> post[t].0@ == pre[t].0@ && post[t].1@ == pre[t].1@,
        !assoc_has_key(pre, pre.len() as int, post[pre.len() as int].0@),
    ensures
        assoc_wf(post),
        assoc_view(post) == assoc_view(pre).insert(
            post[pre.len() as int].0@,
            post[pre.len() as int].1@,
        ),
{
    let n = pre.len() as int;
    assert forall|q: K::V| #[trigger] assoc_view(post).dom().contains(q) implies assoc_view(
        pre,
    ).insert(post[n].0@, post[n].1@).dom().contains(q) by {
        let t = choose|t: int| 0 <= t < post.len() && post[t].0@ == q;
        if t < n {
            assert(pre[t].0@ == q);
        }
    }
    assert forall|q: K::V| #[trigger] assoc_view(pre).insert(post[n].0@, post[n].1@).dom().contains(
        q,
    ) implies assoc_view(post).dom().contains(q) by {
        if q == post[n].0@ {
            assert(post[n].0@ == q);
        } else {
            let t = choose|t: int| 0 <= t < pre.len() && pre[t].0@ == q;
            assert(post[t].0@ == q);
        }
    }
    assert forall|q: K::V| #[trigger] assoc_view(post).dom().contains(q) implies assoc_view(post)[q]
        == assoc_view(pre).insert(post[n].0@, post[n].1@)[q] by {
        let t = choose|t: int| 0 <= t < post.len() && post[t].0@ == q;
        lemma_assoc_lookup(post, t);
        if t < n {
            assert(pre[t].0@ == q);
            lemma_assoc_lookup(pre, t);
        }
    }
    assert(assoc_view(post) =~= assoc_view(pre).insert(post[n].0@, post[n].1@));
}

} // verus!
