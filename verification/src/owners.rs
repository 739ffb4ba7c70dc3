//! Grouping crate identifiers by owner: for each distinct non-empty
//! owner id, in first-seen order, the ids of the crates that owner owns,
//! in input order. Crates with an empty owner id cannot be grouped and
//! are left out.
use crate::grouping::{
    concat_members, group_keys, group_members, lemma_filter_congruent, lemma_group_keys_props,
    lemma_group_keys_push, lemma_grouping_complete, lemma_members_absent, lemma_members_push,
};
use crate::Crate;
use vstd::prelude::*;
use vstd::string::StringExecFns;

verus! {

/// The grouping key of a crate: its owner id, or `None` when empty.
pub open spec fn owner_key(c: Crate) -> Option<Seq<char>> {
    if c.owner_id@.len() > 0 {
        Some(c.owner_id@)
    } else {
        None
    }
}

/// [`owner_key`] as a function value, for the grouping theory.
pub open spec fn owner_key_fn() -> spec_fn(Crate) -> Option<Seq<char>> {
    |c: Crate| owner_key(c)
}

/// The crate ids of a crate sequence, in order.
pub open spec fn ids_of(cs: Seq<Crate>) -> Seq<Seq<char>> {
    cs.map_values(|c: Crate| c.id@)
}

/// One owner and the ids of the crates they own.
pub struct OwnerCrates {
    pub owner_id: String,
    pub crate_ids: Vec<String>,
}

/// The mapping from owner id to owned crate ids, in first-seen owner
/// order; owner ids are pairwise distinct.
pub struct CratesByOwner {
    pub entries: Vec<OwnerCrates>,
}

impl CratesByOwner {
    /// Owner ids are pairwise distinct.
    pub open spec fn wf(self) -> bool {
        forall|i: int, j: int|
            0 <= i < j < self.entries@.len() ==> (#[trigger] self.entries@[i]).owner_id@ != (
            #[trigger] self.entries@[j]).owner_id@
    }

    /// The crate ids recorded for the entry at `j`.
    pub open spec fn ids_at(self, j: int) -> Seq<Seq<char>> {
        self.entries@[j].crate_ids@.map_values(|s: String| s@)
    }

    /// The crate ids of the given owner, if the owner has an entry.
    pub fn get<'a>(&'a self, owner_id: &String) -> (r: Option<&'a Vec<String>>)
        ensures
            match r {
                Some(v) => exists|j: int|
                    0 <= j < self.entries@.len() && (#[trigger] self.entries@[j]).owner_id@
                        == owner_id@ && v@ == self.entries@[j].crate_ids@,
                None => forall|j: int|
                    0 <= j < self.entries@.len() ==> (#[trigger] self.entries@[j]).owner_id@
                        != owner_id@,
            },
    {
        let mut j: usize = 0;
        while j < self.entries.len()
            invariant
                0 <= j <= self.entries@.len(),
                forall|j2: int|
                    0 <= j2 < j ==> (#[trigger] self.entries@[j2]).owner_id@ != owner_id@,
            decreases self.entries@.len() - j,
        {
            if self.entries[j].owner_id == *owner_id {
                let v = &self.entries[j].crate_ids;
                assert(self.entries@[j as int].owner_id@ == owner_id@);
                return Some(v);
            }
            j = j + 1;
        }
        None
    }
}

/// Mapping to ids commutes with appending one crate.
proof fn lemma_ids_push(cs: Seq<Crate>, c: Crate)
    ensures
        ids_of(cs.push(c)) == ids_of(cs).push(c.id@),
{
    assert(ids_of(cs.push(c)) =~= ids_of(cs).push(c.id@));
}

/// Taking views commutes with appending one string.
proof fn lemma_views_push(v: Seq<String>, s: String)
    ensures
        (v.push(s)).map_values(|x: String| x@) == v.map_values(|x: String| x@).push(s@),
{
    assert((v.push(s)).map_values(|x: String| x@) =~= v.map_values(|x: String| x@).push(s@));
}

/// Groups the crates by owner id: one entry per distinct non-empty owner
/// id, in first-seen order, holding the ids of that owner's crates in
/// input order.
pub fn group_crates_by_owner(crates: &Vec<Crate>) -> (r: CratesByOwner)
    ensures
        r.wf(),
        r.entries@.len() == group_keys(crates@, owner_key_fn()).len(),
        forall|j: int|
            0 <= j < r.entries@.len() ==> (#[trigger] r.entries@[j]).owner_id@ == group_keys(
                crates@,
                owner_key_fn(),
            )[j],
        forall|j: int|
            0 <= j < r.entries@.len() ==> #[trigger] r.ids_at(j) == ids_of(
                group_members(crates@, owner_key_fn(), group_keys(crates@, owner_key_fn())[j]),
            ),
{
    let key = Ghost(owner_key_fn());
    let mut out = CratesByOwner { entries: Vec::new() };
    let mut i: usize = 0;
    while i < crates.len()
        invariant
            0 <= i <= crates@.len(),
            out.entries@.len() == group_keys(crates@.take(i as int), key@).len(),
            forall|j: int|
                0 <= j < out.entries@.len() ==> (#[trigger] out.entries@[j]).owner_id@
                    == group_keys(crates@.take(i as int), key@)[j],
            forall|j: int|
                0 <= j < out.entries@.len() ==> #[trigger] out.ids_at(j) == ids_of(
                    group_members(
                        crates@.take(i as int),
                        key@,
                        group_keys(crates@.take(i as int), key@)[j],
                    ),
                ),
            key@ == owner_key_fn(),
        decreases crates@.len() - i,
    {
        let c = &crates[i];
        let ghost out0 = out;
        let ghost prefix = crates@.take(i as int);
        proof {
            assert(prefix.push(crates@[i as int]) =~= crates@.take(i + 1));
            lemma_group_keys_push(prefix, key@, crates@[i as int]);
            lemma_group_keys_props(prefix, key@);
        }
        if c.owner_id.as_str().is_empty() {
            // No key: the groups are unchanged.
            proof {
                assert(owner_key(crates@[i as int]) is None);
                assert forall|j: int| 0 <= j < out.entries@.len() implies #[trigger] out.ids_at(j)
                    == ids_of(
                    group_members(
                        crates@.take(i + 1),
                        key@,
                        group_keys(crates@.take(i + 1), key@)[j],
                    ),
                ) by {
                    lemma_members_push(prefix, key@, group_keys(prefix, key@)[j], crates@[i as int]);
                }
            }
        } else {
            let ghost k = c.owner_id@;
            proof {
                assert(owner_key(crates@[i as int]) == Some(k));
            }
            let pos = find_owner(&out.entries, &c.owner_id);
            if let Some(j) = pos {
                // Existing owner: append the crate id.
                let ghost rs0 = out.entries@;
                let mut entry = out.entries.remove(j);
                entry.crate_ids.push(c.id.clone());
                let ghost eg = entry;
                out.entries.insert(j, entry);
                proof {
                    assert(out.entries@ =~= rs0.update(j as int, eg));
                    assert(group_keys(prefix, key@).contains(k)) by {
                        assert(group_keys(prefix, key@)[j as int] == k);
                    }
                    assert(group_keys(crates@.take(i + 1), key@) == group_keys(prefix, key@));
                    assert forall|j2: int| 0 <= j2 < out.entries@.len() implies #[trigger] out.ids_at(
                        j2,
                    ) == ids_of(
                        group_members(
                            crates@.take(i + 1),
                            key@,
                            group_keys(crates@.take(i + 1), key@)[j2],
                        ),
                    ) by {
                        lemma_members_push(
                            prefix,
                            key@,
                            group_keys(prefix, key@)[j2],
                            crates@[i as int],
                        );
                        if j2 == j as int {
                            assert(out0.ids_at(j2) == ids_of(group_members(prefix, key@, k)));
                            assert(eg.crate_ids@ == rs0[j2].crate_ids@.push(crates@[i as int].id));
                            lemma_views_push(rs0[j2].crate_ids@, crates@[i as int].id);
                            lemma_ids_push(group_members(prefix, key@, k), crates@[i as int]);
                            assert(out.ids_at(j2) == ids_of(
                                group_members(prefix, key@, k).push(crates@[i as int]),
                            ));
                        } else {
                            assert(out.entries@[j2] == rs0[j2]);
                            assert(out0.ids_at(j2) == out.ids_at(j2));
                            assert(group_keys(prefix, key@).no_duplicates());
                            assert(group_keys(prefix, key@)[j as int] == k);
                            assert(group_keys(prefix, key@)[j2] != k);
                        }
                    }
                }
            } else {
                // New owner: a fresh entry holding only this crate's id.
                let ghost rs0 = out.entries@;
                let entry = OwnerCrates {
                    owner_id: c.owner_id.clone(),
                    crate_ids: vec![c.id.clone()],
                };
                out.entries.push(entry);
                proof {
                    assert(!group_keys(prefix, key@).contains(k)) by {
                        if group_keys(prefix, key@).contains(k) {
                            let j2 = choose|j2: int|
                                0 <= j2 < group_keys(prefix, key@).len() && group_keys(
                                    prefix,
                                    key@,
                                )[j2] == k;
                            assert(rs0[j2].owner_id@ == k);
                        }
                    }
                    assert(group_keys(crates@.take(i + 1), key@) == group_keys(
                        prefix,
                        key@,
                    ).push(k));
                    assert forall|j2: int| 0 <= j2 < out.entries@.len() implies #[trigger] out.ids_at(
                        j2,
                    ) == ids_of(
                        group_members(
                            crates@.take(i + 1),
                            key@,
                            group_keys(crates@.take(i + 1), key@)[j2],
                        ),
                    ) by {
                        lemma_members_push(
                            prefix,
                            key@,
                            group_keys(crates@.take(i + 1), key@)[j2],
                            crates@[i as int],
                        );
                        if j2 < out.entries@.len() - 1 {
                            assert(out.entries@[j2] == rs0[j2]);
                            assert(out0.ids_at(j2) == out.ids_at(j2));
                            assert(group_keys(prefix, key@)[j2] != k);
                        } else {
                            assert forall|i2: int| 0 <= i2 < prefix.len() implies key@(prefix[i2])
                                != Some(k) by {
                                if key@(prefix[i2]) == Some(k) {
                                    assert(group_keys(prefix, key@).contains(k));
                                }
                            }
                            lemma_members_absent(prefix, key@, k);
                            lemma_ids_push(Seq::<Crate>::empty(), crates@[i as int]);
                            assert(out.entries@[j2].crate_ids@ =~= Seq::<String>::empty().push(
                                crates@[i as int].id,
                            ));
                            lemma_views_push(Seq::<String>::empty(), crates@[i as int].id);
                            assert(Seq::<String>::empty().map_values(|x: String| x@)
                                =~= ids_of(Seq::<Crate>::empty()));
                            assert(out.ids_at(j2) == ids_of(
                                Seq::<Crate>::empty().push(crates@[i as int]),
                            ));
                        }
                    }
                }
            }
        }
        i = i + 1;
    }
    proof {
        assert(crates@.take(crates@.len() as int) =~= crates@);
        lemma_group_keys_props(crates@, key@);
        let ks = group_keys(crates@, key@);
        assert forall|a: int, b: int| 0 <= a < b < out.entries@.len() implies (
        #[trigger] out.entries@[a]).owner_id@ != (#[trigger] out.entries@[b]).owner_id@ by {
            assert(ks[a] != ks[b]);
        }
    }
    out
}

/// Position of the entry of the given owner id, if any.
fn find_owner(entries: &Vec<OwnerCrates>, owner_id: &String) -> (r: Option<usize>)
    ensures
        match r {
            Some(j) => j < entries@.len() && entries@[j as int].owner_id@ == owner_id@,
            None => forall|j: int|
                0 <= j < entries@.len() ==> (#[trigger] entries@[j]).owner_id@ != owner_id@,
        },
{
    let mut j: usize = 0;
    while j < entries.len()
        invariant
            0 <= j <= entries@.len(),
            forall|j2: int| 0 <= j2 < j ==> (#[trigger] entries@[j2]).owner_id@ != owner_id@,
        decreases entries@.len() - j,
    {
        if entries[j].owner_id == *owner_id {
            return Some(j);
        }
        j = j + 1;
    }
    None
}

/// Law: grouping by owner then flattening reproduces, as a multiset,
/// exactly the crates with a non-empty owner id — each such crate
/// appears exactly once, none is lost, none is duplicated.
pub proof fn lemma_owner_grouping_complete(cs: Seq<Crate>)
    ensures
        concat_members(cs, owner_key_fn(), group_keys(cs, owner_key_fn())).to_multiset()
            == cs.filter(|c: Crate| c.owner_id@.len() > 0).to_multiset(),
{
    lemma_grouping_complete(cs, owner_key_fn());
    let key = owner_key_fn();
    lemma_filter_congruent(cs, |c: Crate| key(c) is Some, |c: Crate| c.owner_id@.len() > 0);
}

} // verus!
