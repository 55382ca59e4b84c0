use vstd::prelude::*;

verus! {

/// The identities of the entities that bear the key `k`, oldest first, where
/// the entity with identity `i + 1` bears `keys[i]`.
pub open spec fn ids_where<T>(keys: Seq<T>, k: T) -> Seq<u32>
    decreases keys.len(),
{
    if keys.len() == 0 {
        Seq::empty()
    } else {
        let earlier = ids_where(keys.drop_last(), k);
        if keys.last() == k {
            earlier.push(keys.len() as u32)
        } else {
            earlier
        }
    }
}

/// The entities that `ids` names, in that order, where the entity with
/// identity `i + 1` is `s[i]`.
pub open spec fn pick<A>(s: Seq<A>, ids: Seq<u32>) -> Seq<A> {
    Seq::new(ids.len(), |j: int| s[ids[j] - 1])
}

/// The identities 1, 2, ..., `n`.
pub open spec fn first_ids(n: nat) -> Seq<u32> {
    Seq::new(n, |i: int| (i + 1) as u32)
}

/// Filing one more entity extends the list of its key and no other.
pub proof fn lemma_ids_where_push<T>(keys: Seq<T>, x: T, k: T)
    ensures
        ids_where(keys.push(x), k) == if x == k {
            ids_where(keys, k).push((keys.len() + 1) as u32)
        } else {
            ids_where(keys, k)
        },
{
    assert(keys.push(x).drop_last() =~= keys);
}

/// Every listed identity names an entity that bears the key.
pub proof fn lemma_ids_where_sound<T>(keys: Seq<T>, k: T)
    requires
        keys.len() <= u32::MAX,
    ensures
        ids_where(keys, k).len() <= keys.len(),
        forall|j: int|
            0 <= j < ids_where(keys, k).len() ==> 1 <= #[trigger] ids_where(keys, k)[j] <= keys.len()
                && keys[ids_where(keys, k)[j] - 1] == k,
    decreases keys.len(),
{
    if keys.len() > 0 {
        lemma_ids_where_sound(keys.drop_last(), k);
    }
}

/// Extending a sequence by one extends what a filter keeps of it by that
/// one, if it passes.
pub proof fn lemma_filter_push<A>(s: Seq<A>, x: A, p: spec_fn(A) -> bool)
    ensures
        s.push(x).filter(p) == if p(x) {
            s.filter(p).push(x)
        } else {
            s.filter(p)
        },
{
    reveal(Seq::filter);
    assert(s.push(x).drop_last() =~= s);
}

/// Of a sequence of which nothing passes, a filter keeps nothing.
pub proof fn lemma_filter_of_none<A>(s: Seq<A>, p: spec_fn(A) -> bool)
    requires
        forall|i: int| 0 <= i < s.len() ==> !p(#[trigger] s[i]),
    ensures
        s.filter(p) == Seq::<A>::empty(),
    decreases s.len(),
{
    reveal(Seq::filter);
    if s.len() > 0 {
        let s0 = s.drop_last();
        assert forall|i: int| 0 <= i < s0.len() implies !p(#[trigger] s0[i]) by {
            assert(s0[i] == s[i]);
        }
        lemma_filter_of_none(s0, p);
        assert(!p(s[s.len() - 1]));
    }
}

/// The entities listed under a key are exactly those that a filter for the
/// key keeps, in the same order.
pub proof fn lemma_pick_is_filter<A, T>(s: Seq<A>, keys: Seq<T>, k: T, p: spec_fn(A) -> bool)
    requires
        keys.len() == s.len(),
        s.len() <= u32::MAX,
        forall|i: int| 0 <= i < s.len() ==> p(#[trigger] s[i]) == (keys[i] == k),
    ensures
        pick(s, ids_where(keys, k)) == s.filter(p),
    decreases s.len(),
{
    reveal(Seq::filter);
    if s.len() == 0 {
        assert(pick(s, ids_where(keys, k)) =~= s.filter(p));
    } else {
        let s0 = s.drop_last();
        let k0 = keys.drop_last();
        assert forall|i: int| 0 <= i < s0.len() implies p(#[trigger] s0[i]) == (k0[i] == k) by {
            assert(s0[i] == s[i]);
        }
        lemma_pick_is_filter(s0, k0, k, p);
        lemma_ids_where_sound(k0, k);
        let ids0 = ids_where(k0, k);
        let ids = ids_where(keys, k);
        assert(p(s.last()) == (keys.last() == k));
        assert forall|j: int| 0 <= j < ids0.len() implies pick(s, ids)[j] == pick(s0, ids0)[j] by {
            assert(ids[j] == ids0[j]);
            assert(s0[ids0[j] - 1] == s[ids0[j] - 1]);
        }
        assert(pick(s, ids) =~= s.filter(p));
    }
}

} // verus!
