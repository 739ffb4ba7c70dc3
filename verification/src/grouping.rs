//! A small theory of grouping: splitting a sequence of records into
//! groups by a key function, keeping the order in which keys are first
//! seen and the record order inside each group. Both the repository
//! grouper and the owner grouper instantiate it, and the two laws at the
//! end — flattening the groups loses and duplicates nothing, and grouping
//! the flattened groups again changes nothing — are proved here once.
use vstd::prelude::*;
use vstd::multiset::Multiset;
use vstd::seq_lib::lemma_multiset_commutative;
use vstd::seq_lib::group_to_multiset_ensures;

verus! {

/// The distinct keys of `cs` under `key`, in first-seen order. Records
/// whose key is `None` belong to no group.
pub open spec fn group_keys<T, K>(cs: Seq<T>, key: spec_fn(T) -> Option<K>) -> Seq<K>
    decreases cs.len(),
{
    if cs.len() == 0 {
        Seq::empty()
    } else {
        let prev = group_keys(cs.drop_last(), key);
        match key(cs.last()) {
            Option::None => prev,
            Option::Some(k) => if prev.contains(k) {
                prev
            } else {
                prev.push(k)
            },
        }
    }
}

/// The group of `k`: the subsequence of `cs` whose key is `k`.
pub open spec fn group_members<T, K>(cs: Seq<T>, key: spec_fn(T) -> Option<K>, k: K) -> Seq<T> {
    cs.filter(|c: T| key(c) == Some(k))
}

/// The groups of the keys `ks`, flattened in key order.
pub open spec fn concat_members<T, K>(
    cs: Seq<T>,
    key: spec_fn(T) -> Option<K>,
    ks: Seq<K>,
) -> Seq<T>
    decreases ks.len(),
{
    if ks.len() == 0 {
        Seq::empty()
    } else {
        concat_members(cs, key, ks.drop_last()) + group_members(cs, key, ks.last())
    }
}

/// How `filter` acts on a sequence extended by one element.
pub proof fn lemma_filter_push<T>(cs: Seq<T>, pred: spec_fn(T) -> bool, c: T)
    ensures
        cs.push(c).filter(pred) == if pred(c) {
            cs.filter(pred).push(c)
        } else {
            cs.filter(pred)
        },
{
    reveal(Seq::filter);
    assert(cs.push(c).drop_last() =~= cs);
    assert(cs.push(c).last() == c);
}

/// A filter that rejects every element yields the empty sequence.
pub proof fn lemma_filter_none<T>(cs: Seq<T>, pred: spec_fn(T) -> bool)
    requires
        forall|i: int| 0 <= i < cs.len() ==> !pred(cs[i]),
    ensures
        cs.filter(pred) == Seq::<T>::empty(),
    decreases cs.len(),
{
    reveal(Seq::filter);
    if cs.len() > 0 {
        lemma_filter_none(cs.drop_last(), pred);
    }
}

/// A filter that accepts every element yields the sequence itself.
pub proof fn lemma_filter_all<T>(cs: Seq<T>, pred: spec_fn(T) -> bool)
    requires
        forall|i: int| 0 <= i < cs.len() ==> pred(cs[i]),
    ensures
        cs.filter(pred) == cs,
    decreases cs.len(),
{
    reveal(Seq::filter);
    if cs.len() > 0 {
        lemma_filter_all(cs.drop_last(), pred);
        assert(cs.drop_last().push(cs.last()) =~= cs);
    }
}

/// Filters that agree on every element of `cs` yield the same result.
pub proof fn lemma_filter_congruent<T>(cs: Seq<T>, p: spec_fn(T) -> bool, q: spec_fn(T) -> bool)
    requires
        forall|i: int| 0 <= i < cs.len() ==> (p(cs[i]) <==> q(cs[i])),
    ensures
        cs.filter(p) == cs.filter(q),
    decreases cs.len(),
{
    reveal(Seq::filter);
    if cs.len() > 0 {
        lemma_filter_congruent(cs.drop_last(), p, q);
    }
}

/// How one group changes when a record is appended.
pub proof fn lemma_members_push<T, K>(cs: Seq<T>, key: spec_fn(T) -> Option<K>, k: K, c: T)
    ensures
        group_members(cs.push(c), key, k) == if key(c) == Some(k) {
            group_members(cs, key, k).push(c)
        } else {
            group_members(cs, key, k)
        },
{
    lemma_filter_push(cs, |x: T| key(x) == Some(k), c);
}

/// How the key list changes when a record is appended.
pub proof fn lemma_group_keys_push<T, K>(cs: Seq<T>, key: spec_fn(T) -> Option<K>, c: T)
    ensures
        group_keys(cs.push(c), key) == (match key(c) {
            Option::None => group_keys(cs, key),
            Option::Some(k) => if group_keys(cs, key).contains(k) {
                group_keys(cs, key)
            } else {
                group_keys(cs, key).push(k)
            },
        }),
{
    assert(cs.push(c).drop_last() =~= cs);
    assert(cs.push(c).last() == c);
}

/// The key list is duplicate-free and holds exactly the keys of `cs`.
pub proof fn lemma_group_keys_props<T, K>(cs: Seq<T>, key: spec_fn(T) -> Option<K>)
    ensures
        group_keys(cs, key).no_duplicates(),
        forall|k: K|
            group_keys(cs, key).contains(k) <==> exists|i: int|
                0 <= i < cs.len() && key(cs[i]) == Some(k),
    decreases cs.len(),
{
    if cs.len() == 0 {
    } else {
        let dl = cs.drop_last();
        let c = cs.last();
        lemma_group_keys_props(dl, key);
        let prev = group_keys(dl, key);
        assert forall|k: K| group_keys(cs, key).contains(k) implies exists|i: int|
            0 <= i < cs.len() && key(cs[i]) == Some(k) by {
            if prev.contains(k) {
                let i = choose|i: int| 0 <= i < dl.len() && key(dl[i]) == Some(k);
                assert(cs[i] == dl[i]);
                assert(0 <= i < cs.len() && key(cs[i]) == Some(k));
            } else {
                assert(key(c) == Some(k));
                assert(cs[cs.len() - 1] == c);
            }
        }
        assert forall|k: K| (exists|i: int| 0 <= i < cs.len() && key(cs[i]) == Some(k)) implies
            group_keys(cs, key).contains(k) by {
            let i = choose|i: int| 0 <= i < cs.len() && key(cs[i]) == Some(k);
            if i < cs.len() - 1 {
                assert(dl[i] == cs[i]);
                assert(prev.contains(k));
                if !group_keys(cs, key).contains(k) {
                    assert(exists|j: int| 0 <= j < prev.len() && prev[j] == k);
                    let j = choose|j: int| 0 <= j < prev.len() && prev[j] == k;
                    assert(group_keys(cs, key)[j] == k);
                }
            } else {
                assert(key(c) == Some(k));
                match key(c) {
                    Option::None => {
                        assert(false);
                    },
                    Option::Some(k2) => {
                        assert(k2 == k);
                        if prev.contains(k) {
                        } else {
                            assert(group_keys(cs, key) == prev.push(k));
                            assert(group_keys(cs, key)[prev.len() as int] == k);
                        }
                    },
                }
            }
        }
        match key(c) {
            Option::None => {},
            Option::Some(k) => {
                if !prev.contains(k) {
                    assert forall|i: int, j: int|
                        0 <= i < j < prev.push(k).len() implies prev.push(k)[i] != prev.push(k)[j]
                        by {
                        if j < prev.len() {
                        } else {
                            assert(prev.push(k)[j] == k);
                            if prev.push(k)[i] == k {
                                assert(prev[i] == k);
                                assert(prev.contains(k));
                            }
                        }
                    }
                    assert(prev.push(k).no_duplicates());
                }
            },
        }
    }
}

/// The group of a key that occurs nowhere in `cs` is empty.
pub proof fn lemma_members_absent<T, K>(cs: Seq<T>, key: spec_fn(T) -> Option<K>, k: K)
    requires
        forall|i: int| 0 <= i < cs.len() ==> key(cs[i]) != Some(k),
    ensures
        group_members(cs, key, k) == Seq::<T>::empty(),
{
    lemma_filter_none(cs, |c: T| key(c) == Some(k));
}

/// Every record of a group carries the group's key, and a nonempty group
/// means the key occurs in `cs`.
pub proof fn lemma_members_pred<T, K>(cs: Seq<T>, key: spec_fn(T) -> Option<K>, k: K)
    ensures
        forall|i: int|
            0 <= i < group_members(cs, key, k).len() ==> key(
                #[trigger] group_members(cs, key, k)[i],
            ) == Some(k),
        group_members(cs, key, k).len() > 0 ==> exists|i: int|
            0 <= i < cs.len() && key(cs[i]) == Some(k),
    decreases cs.len(),
{
    reveal(Seq::filter);
    if cs.len() > 0 {
        lemma_members_pred(cs.drop_last(), key, k);
        assert(cs.drop_last().push(cs.last()) =~= cs);
        lemma_members_push(cs.drop_last(), key, k, cs.last());
        if group_members(cs, key, k).len() > 0 {
            if key(cs.last()) == Some(k) {
                assert(cs[cs.len() - 1] == cs.last());
            } else {
                assert(group_members(cs.drop_last(), key, k).len() > 0);
                let i = choose|i: int|
                    0 <= i < cs.drop_last().len() && key(cs.drop_last()[i]) == Some(k);
                assert(cs[i] == cs.drop_last()[i]);
            }
        }
    }
}

/// A key that occurs in `cs` has a nonempty group.
pub proof fn lemma_members_present<T, K>(cs: Seq<T>, key: spec_fn(T) -> Option<K>, k: K, i: int)
    requires
        0 <= i < cs.len(),
        key(cs[i]) == Some(k),
    ensures
        group_members(cs, key, k).len() > 0,
{
    let pred = |c: T| key(c) == Some(k);
    cs.lemma_filter_contains(pred, i);
    assert(cs.filter(pred).contains(cs[i]));
}

/// Appending a record whose key is in none of the groups of `ks` leaves
/// their flattening unchanged.
pub proof fn lemma_concat_push_absent<T, K>(
    cs: Seq<T>,
    key: spec_fn(T) -> Option<K>,
    c: T,
    ks: Seq<K>,
)
    requires
        forall|k: K| ks.contains(k) ==> key(c) != Some(k),
    ensures
        concat_members(cs.push(c), key, ks) == concat_members(cs, key, ks),
    decreases ks.len(),
{
    if ks.len() > 0 {
        let dl = ks.drop_last();
        assert(forall|k: K| dl.contains(k) ==> ks.contains(k)) by {
            assert forall|k: K| dl.contains(k) implies ks.contains(k) by {
                let j = choose|j: int| 0 <= j < dl.len() && dl[j] == k;
                assert(ks[j] == k);
            }
        }
        lemma_concat_push_absent(cs, key, c, dl);
        assert(ks.contains(ks.last())) by {
            assert(ks[ks.len() - 1] == ks.last());
        }
        lemma_members_push(cs, key, ks.last(), c);
    }
}

/// Appending a record whose key occurs once in `ks` adds exactly that
/// record to the flattening of the groups.
pub proof fn lemma_concat_push_present<T, K>(
    cs: Seq<T>,
    key: spec_fn(T) -> Option<K>,
    c: T,
    k: K,
    ks: Seq<K>,
)
    requires
        key(c) == Some(k),
        ks.no_duplicates(),
        ks.contains(k),
    ensures
        concat_members(cs.push(c), key, ks).to_multiset() == concat_members(
            cs,
            key,
            ks,
        ).to_multiset().insert(c),
    decreases ks.len(),
{
    broadcast use group_to_multiset_ensures;

    let dl = ks.drop_last();
    let l = ks.last();
    assert(ks.len() > 0);
    assert(dl.no_duplicates()) by {
        assert forall|i: int, j: int| 0 <= i < j < dl.len() implies dl[i] != dl[j] by {
            assert(ks[i] == dl[i] && ks[j] == dl[j]);
        }
    }
    if l == k {
        assert(!dl.contains(k)) by {
            if dl.contains(k) {
                let j = choose|j: int| 0 <= j < dl.len() && dl[j] == k;
                assert(ks[j] == k && ks[ks.len() - 1] == k);
            }
        }
        lemma_concat_push_absent(cs, key, c, dl);
        lemma_members_push(cs, key, k, c);
        let a = concat_members(cs, key, dl);
        let b = group_members(cs, key, k);
        assert(concat_members(cs.push(c), key, ks) == a + b.push(c));
        lemma_multiset_commutative(a, b.push(c));
        lemma_multiset_commutative(a, b);
        assert(b.push(c).to_multiset() == b.to_multiset().insert(c));
        assert(a.to_multiset().add(b.to_multiset().insert(c)) =~= a.to_multiset().add(
            b.to_multiset(),
        ).insert(c));
    } else {
        assert(dl.contains(k)) by {
            let j = choose|j: int| 0 <= j < ks.len() && ks[j] == k;
            assert(j < ks.len() - 1);
            assert(dl[j] == k);
        }
        lemma_concat_push_present(cs, key, c, k, dl);
        lemma_members_push(cs, key, l, c);
        let a0 = concat_members(cs, key, dl);
        let a1 = concat_members(cs.push(c), key, dl);
        let b = group_members(cs, key, l);
        assert(group_members(cs.push(c), key, l) == b);
        assert(concat_members(cs.push(c), key, ks) == a1 + b);
        lemma_multiset_commutative(a1, b);
        lemma_multiset_commutative(a0, b);
        assert(a0.to_multiset().insert(c).add(b.to_multiset()) =~= a0.to_multiset().add(
            b.to_multiset(),
        ).insert(c));
    }
}

/// Law: flattening the groups of `cs` reproduces, as a multiset, exactly
/// the records of `cs` that carry a key — nothing is lost, nothing is
/// duplicated.
pub proof fn lemma_grouping_complete<T, K>(cs: Seq<T>, key: spec_fn(T) -> Option<K>)
    ensures
        concat_members(cs, key, group_keys(cs, key)).to_multiset() == cs.filter(
            |c: T| key(c) is Some,
        ).to_multiset(),
    decreases cs.len(),
{
    broadcast use group_to_multiset_ensures;

    reveal(Seq::filter);
    if cs.len() == 0 {
        assert(cs.filter(|c: T| key(c) is Some) == Seq::<T>::empty());
    } else {
        let dl = cs.drop_last();
        let c = cs.last();
        lemma_grouping_complete(dl, key);
        lemma_group_keys_props(dl, key);
        assert(dl.push(c) =~= cs);
        lemma_group_keys_push(dl, key, c);
        lemma_filter_push(dl, |x: T| key(x) is Some, c);
        let ks = group_keys(dl, key);
        match key(c) {
            Option::None => {
                assert(forall|k: K| ks.contains(k) ==> key(c) != Some(k));
                lemma_concat_push_absent(cs.drop_last(), key, c, ks);
                assert(group_keys(cs, key) == ks);
            },
            Option::Some(k) => {
                if ks.contains(k) {
                    lemma_concat_push_present(dl, key, c, k, ks);
                    assert(group_keys(cs, key) == ks);
                    assert(cs.filter(|x: T| key(x) is Some) == dl.filter(
                        |x: T| key(x) is Some,
                    ).push(c));
                } else {
                    assert(group_keys(cs, key) == ks.push(k));
                    assert(forall|k2: K| ks.contains(k2) ==> key(c) != Some(k2));
                    lemma_concat_push_absent(dl, key, c, ks);
                    assert(forall|i: int| 0 <= i < dl.len() ==> key(dl[i]) != Some(k));
                    lemma_members_absent(dl, key, k);
                    lemma_members_push(dl, key, k, c);
                    assert(group_members(cs, key, k) == Seq::<T>::empty().push(c));
                    assert(ks.push(k).drop_last() =~= ks);
                    assert(ks.push(k).last() == k);
                    assert(concat_members(cs, key, ks.push(k)) == concat_members(cs, key, ks)
                        + Seq::<T>::empty().push(c));
                    let a = concat_members(cs, key, ks);
                    let b = Seq::<T>::empty().push(c);
                    lemma_multiset_commutative(a, b);
                    assert(b.to_multiset() == Multiset::<T>::empty().insert(c)) by {
                        assert(Seq::<T>::empty().to_multiset() =~= Multiset::<T>::empty());
                        assert(b.to_multiset() == Seq::<T>::empty().to_multiset().insert(c));
                    }
                    assert(a.to_multiset().add(Multiset::<T>::empty().insert(c))
                        =~= a.to_multiset().insert(c));
                }
            },
        }
    }
}

/// A sequence holds `k` exactly when its front part holds `k` or its
/// last element is `k`.
pub proof fn lemma_contains_drop_last<K>(ks: Seq<K>, k: K)
    requires
        ks.len() > 0,
    ensures
        ks.contains(k) <==> (ks.drop_last().contains(k) || k == ks.last()),
{
    if ks.contains(k) {
        let j = choose|j: int| 0 <= j < ks.len() && ks[j] == k;
        if j < ks.len() - 1 {
            assert(ks.drop_last()[j] == k);
        }
    }
    if ks.drop_last().contains(k) {
        let j = choose|j: int| 0 <= j < ks.drop_last().len() && ks.drop_last()[j] == k;
        assert(ks[j] == k);
    }
    if k == ks.last() {
        assert(ks[ks.len() - 1] == k);
    }
}

/// Dropping the last element keeps a sequence duplicate-free, and the
/// dropped element does not occur in the rest.
pub proof fn lemma_no_dup_drop_last<K>(ks: Seq<K>)
    requires
        ks.len() > 0,
        ks.no_duplicates(),
    ensures
        ks.drop_last().no_duplicates(),
        !ks.drop_last().contains(ks.last()),
{
    let dl = ks.drop_last();
    assert forall|i: int, j: int| 0 <= i < j < dl.len() implies dl[i] != dl[j] by {
        assert(ks[i] == dl[i] && ks[j] == dl[j]);
    }
    if dl.contains(ks.last()) {
        let j = choose|j: int| 0 <= j < dl.len() && dl[j] == ks.last();
        assert(ks[j] == ks.last() && ks[ks.len() - 1] == ks.last());
    }
}

/// Appending a block of records that all carry the key `k` extends `k`'s
/// group by the block and leaves every other group unchanged.
pub proof fn lemma_members_append_block<T, K>(
    f0: Seq<T>,
    key: spec_fn(T) -> Option<K>,
    block: Seq<T>,
    k: K,
    k2: K,
)
    requires
        forall|i: int| 0 <= i < block.len() ==> key(block[i]) == Some(k),
    ensures
        group_members(f0 + block, key, k2) == if k2 == k {
            group_members(f0, key, k2) + block
        } else {
            group_members(f0, key, k2)
        },
{
    let pred = |c: T| key(c) == Some(k2);
    Seq::filter_distributes_over_add(f0, block, pred);
    if k2 == k {
        lemma_filter_all(block, pred);
    } else {
        lemma_filter_none(block, pred);
        assert(group_members(f0, key, k2) + Seq::<T>::empty() =~= group_members(f0, key, k2));
    }
}

/// Appending a nonempty block of records that all carry the key `k`
/// appends `k` to the key list when it is new.
pub proof fn lemma_keys_append_block<T, K>(
    f0: Seq<T>,
    key: spec_fn(T) -> Option<K>,
    block: Seq<T>,
    k: K,
)
    requires
        block.len() > 0,
        forall|i: int| 0 <= i < block.len() ==> key(block[i]) == Some(k),
    ensures
        group_keys(f0 + block, key) == if group_keys(f0, key).contains(k) {
            group_keys(f0, key)
        } else {
            group_keys(f0, key).push(k)
        },
    decreases block.len(),
{
    let b0 = block.drop_last();
    let c = block.last();
    assert(f0 + block =~= (f0 + b0).push(c));
    if block.len() == 1 {
        assert(f0 + b0 =~= f0);
        lemma_group_keys_push(f0, key, c);
    } else {
        lemma_keys_append_block(f0, key, b0, k);
        lemma_group_keys_push(f0 + b0, key, c);
        let ks0 = group_keys(f0, key);
        if !ks0.contains(k) {
            assert(group_keys(f0 + b0, key) == ks0.push(k));
            assert(ks0.push(k).contains(k)) by {
                assert(ks0.push(k)[ks0.len() as int] == k);
            }
        }
    }
}

/// Law: grouping is idempotent. Flattening the groups whose keys are the
/// duplicate-free list `ks` and grouping again yields the same key list
/// and the same groups.
#[verifier::spinoff_prover]
pub proof fn lemma_regroup<T, K>(cs: Seq<T>, key: spec_fn(T) -> Option<K>, ks: Seq<K>)
    requires
        ks.no_duplicates(),
        forall|k: K| ks.contains(k) ==> group_members(cs, key, k).len() > 0,
    ensures
        group_keys(concat_members(cs, key, ks), key) == ks,
        forall|k: K|
            #[trigger] group_members(concat_members(cs, key, ks), key, k) == if ks.contains(k) {
                group_members(cs, key, k)
            } else {
                Seq::<T>::empty()
            },
    decreases ks.len(),
{
    if ks.len() == 0 {
        assert(concat_members(cs, key, ks) == Seq::<T>::empty());
        assert(group_keys(Seq::<T>::empty(), key) =~= Seq::<K>::empty());
        assert forall|k: K|
            #[trigger] group_members(concat_members(cs, key, ks), key, k) == Seq::<T>::empty() by {
            lemma_filter_none(Seq::<T>::empty(), |c: T| key(c) == Some(k));
        }
    } else {
        let dl = ks.drop_last();
        let l = ks.last();
        lemma_no_dup_drop_last(ks);
        assert forall|k: K| dl.contains(k) implies ks.contains(k) by {
            lemma_contains_drop_last(ks, k);
        }
        lemma_regroup(cs, key, dl);
        let f0 = concat_members(cs, key, dl);
        let block = group_members(cs, key, l);
        assert(ks.contains(l)) by {
            assert(ks[ks.len() - 1] == l);
        }
        assert(block.len() > 0);
        lemma_members_pred(cs, key, l);
        lemma_keys_append_block(f0, key, block, l);
        assert(group_keys(f0, key) == dl);
        assert(group_members(f0, key, l) == Seq::<T>::empty());
        assert(group_keys(f0 + block, key) == dl.push(l));
        assert(dl.push(l) =~= ks);
        assert(concat_members(cs, key, ks) == f0 + block);
        assert forall|k: K|
            #[trigger] group_members(concat_members(cs, key, ks), key, k) == if ks.contains(k) {
                group_members(cs, key, k)
            } else {
                Seq::<T>::empty()
            } by {
            lemma_members_append_block(f0, key, block, l, k);
            lemma_contains_drop_last(ks, k);
            if k == l {
                assert(group_members(f0 + block, key, l) == Seq::<T>::empty() + block);
                assert(Seq::<T>::empty() + block =~= block);
            }
        }
    }
}

} // verus!
