//! Grouping crates by the repository they declare: one `Repo` per
//! distinct normalized `(host, owner, name)` triple, in the order the
//! triples are first seen, each carrying the crates that resolve to it.
use crate::grouping::{
    concat_members, group_keys, group_members, lemma_group_keys_props, lemma_group_keys_push,
    lemma_members_present, lemma_members_push, lemma_regroup,
};
use crate::url::{get_owner_and_repo, spec_owner_and_repo};
use crate::Crate;
use vstd::prelude::*;
use vstd::string::{StringExecFns, StrSliceExecFns};

verus! {

/// The grouping key of a crate: the normalized triple of its repository
/// URL, or `None` when the URL does not parse into a non-empty owner.
pub open spec fn repo_key(c: Crate) -> Option<(Seq<char>, Seq<char>, Seq<char>)> {
    let t = spec_owner_and_repo(c.repository@);
    if t.1.len() > 0 {
        Some(t)
    } else {
        None
    }
}

/// [`repo_key`] as a function value, for the grouping theory.
pub open spec fn repo_key_fn() -> spec_fn(Crate) -> Option<(Seq<char>, Seq<char>, Seq<char>)> {
    |c: Crate| repo_key(c)
}

/// One distinct repository and the crates that declare it.
pub struct Repo {
    /// Normalized host (lower-cased, trailing `.com` removed).
    pub host: String,
    /// Owner path segment, verbatim.
    pub owner: String,
    /// Name path segment, trailing `.git` removed.
    pub repo: String,
    /// Destination slug: `host-owner-repo`.
    pub name: String,
    /// Human-readable form: `host/owner/repo`.
    pub display: String,
    /// The crates that resolve to this repository, in input order.
    pub crates: Vec<Crate>,
}

/// The key triple a `Repo` stands for.
pub open spec fn repo_key_view(r: Repo) -> (Seq<char>, Seq<char>, Seq<char>) {
    (r.host@, r.owner@, r.repo@)
}

/// The derived name fields agree with the key triple.
pub open spec fn repo_wf(r: Repo) -> bool {
    &&& r.name@ == r.host@ + "-"@ + r.owner@ + "-"@ + r.repo@
    &&& r.display@ == r.host@ + "/"@ + r.owner@ + "/"@ + r.repo@
}

impl Clone for Repo {
    fn clone(&self) -> (r: Self)
        ensures
            r.host == self.host,
            r.owner == self.owner,
            r.repo == self.repo,
            r.name == self.name,
            r.display == self.display,
            r.crates@ == self.crates@,
    {
        Repo {
            host: self.host.clone(),
            owner: self.owner.clone(),
            repo: self.repo.clone(),
            name: self.name.clone(),
            display: self.display.clone(),
            crates: clone_crates(&self.crates),
        }
    }
}

/// Copies a crate list; the copy holds the same records.
pub fn clone_crates(v: &Vec<Crate>) -> (r: Vec<Crate>)
    ensures
        r@ == v@,
{
    let mut out: Vec<Crate> = Vec::new();
    let mut i: usize = 0;
    while i < v.len()
        invariant
            0 <= i <= v@.len(),
            out@ == v@.take(i as int),
        decreases v@.len() - i,
    {
        out.push(v[i].clone());
        proof {
            assert(v@.take(i + 1) =~= v@.take(i as int).push(v@[i as int]));
        }
        i = i + 1;
    }
    proof {
        assert(v@.take(v@.len() as int) =~= v@);
    }
    out
}

/// Joins the three key parts with the given separator.
fn join_triple(host: &String, owner: &String, repo: &String, sep: &str) -> (r: String)
    ensures
        r@ == host@ + sep@ + owner@ + sep@ + repo@,
{
    let mut out = host.clone();
    out.append(sep);
    out.append(owner.as_str());
    out.append(sep);
    out.append(repo.as_str());
    out
}

/// Position of the group carrying the given key triple, if any.
fn find_repo(repos: &Vec<Repo>, host: &String, owner: &String, repo: &String) -> (r: Option<
    usize,
>)
    ensures
        match r {
            Some(j) => j < repos@.len() && repo_key_view(repos@[j as int]) == (
                host@,
                owner@,
                repo@,
            ),
            None => forall|j: int|
                0 <= j < repos@.len() ==> repo_key_view(#[trigger] repos@[j]) != (
                host@,
                owner@,
                repo@,
                ),
        },
{
    let mut j: usize = 0;
    while j < repos.len()
        invariant
            0 <= j <= repos@.len(),
            forall|j2: int|
                0 <= j2 < j ==> repo_key_view(#[trigger] repos@[j2]) != (host@, owner@, repo@),
        decreases repos@.len() - j,
    {
        let rj = &repos[j];
        if rj.host == *host && rj.owner == *owner && rj.repo == *repo {
            return Some(j);
        }
        j = j + 1;
    }
    None
}

/// Groups the crates by repository: one `Repo` per distinct normalized
/// URL triple, in first-seen order, each carrying exactly the crates
/// whose URL resolves to it, in input order. Crates whose URL does not
/// parse into a non-empty owner belong to no group.
pub fn collect_repos(crates: &Vec<Crate>) -> (r: Vec<Repo>)
    ensures
        r@.len() == group_keys(crates@, repo_key_fn()).len(),
        forall|j: int|
            0 <= j < r@.len() ==> repo_key_view(#[trigger] r@[j]) == group_keys(
                crates@,
                repo_key_fn(),
            )[j],
        forall|j: int|
            0 <= j < r@.len() ==> (#[trigger] r@[j]).crates@ == group_members(
                crates@,
                repo_key_fn(),
                group_keys(crates@, repo_key_fn())[j],
            ),
        forall|j: int| 0 <= j < r@.len() ==> repo_wf(#[trigger] r@[j]),
{
    let key = Ghost(repo_key_fn());
    let mut repos: Vec<Repo> = Vec::new();
    let mut i: usize = 0;
    while i < crates.len()
        invariant
            0 <= i <= crates@.len(),
            repos@.len() == group_keys(crates@.take(i as int), key@).len(),
            forall|j: int|
                0 <= j < repos@.len() ==> repo_key_view(#[trigger] repos@[j]) == group_keys(
                    crates@.take(i as int),
                    key@,
                )[j],
            forall|j: int|
                0 <= j < repos@.len() ==> (#[trigger] repos@[j]).crates@ == group_members(
                    crates@.take(i as int),
                    key@,
                    group_keys(crates@.take(i as int), key@)[j],
                ),
            forall|j: int| 0 <= j < repos@.len() ==> repo_wf(#[trigger] repos@[j]),
            key@ == repo_key_fn(),
        decreases crates@.len() - i,
    {
        let c = &crates[i];
        let ghost prefix = crates@.take(i as int);
        proof {
            assert(prefix.push(crates@[i as int]) =~= crates@.take(i + 1));
        }
        let (host, owner, repo) = get_owner_and_repo(c.repository.as_str());
        proof {
            lemma_group_keys_push(prefix, key@, crates@[i as int]);
        }
        if owner.as_str().is_empty() {
            // No key: the groups are unchanged.
            proof {
                assert(repo_key(crates@[i as int]) is None);
                assert forall|j: int| 0 <= j < repos@.len() implies (#[trigger] repos@[j]).crates@
                    == group_members(
                    crates@.take(i + 1),
                    key@,
                    group_keys(crates@.take(i + 1), key@)[j],
                ) by {
                    lemma_members_push(
                        prefix,
                        key@,
                        group_keys(prefix, key@)[j],
                        crates@[i as int],
                    );
                }
            }
        } else {
            proof {
                assert(repo_key(crates@[i as int]) == Some((host@, owner@, repo@)));
            }
            let pos = find_repo(&repos, &host, &owner, &repo);
            let ghost k = (host@, owner@, repo@);
            proof {
                lemma_group_keys_props(prefix, key@);
            }
            if let Some(j) = pos {
                // Existing group: append the crate to it.
                let ghost rs0 = repos@;
                let mut entry = repos.remove(j);
                entry.crates.push(c.clone());
                let ghost eg = entry;
                repos.insert(j, entry);
                proof {
                    assert(repos@ =~= rs0.update(j as int, eg));
                    assert(group_keys(prefix, key@).contains(k)) by {
                        assert(group_keys(prefix, key@)[j as int] == k);
                    }
                    assert(group_keys(crates@.take(i + 1), key@) == group_keys(prefix, key@));
                    assert forall|j2: int| 0 <= j2 < repos@.len() implies (#[trigger] repos@[j2]).crates@
                        == group_members(
                        crates@.take(i + 1),
                        key@,
                        group_keys(crates@.take(i + 1), key@)[j2],
                    ) by {
                        lemma_members_push(
                            prefix,
                            key@,
                            group_keys(prefix, key@)[j2],
                            crates@[i as int],
                        );
                        if j2 != j as int {
                            // Keys are duplicate-free, so only group `j` grows.
                            assert(group_keys(prefix, key@).no_duplicates());
                            assert(group_keys(prefix, key@)[j as int] == k);
                            assert(group_keys(prefix, key@)[j2] != k);
                        }
                    }
                }
            } else {
                // New key: a fresh group holding only this crate.
                let name = join_triple(&host, &owner, &repo, "-");
                let display = join_triple(&host, &owner, &repo, "/");
                let entry = Repo {
                    host,
                    owner,
                    repo,
                    name,
                    display,
                    crates: vec![c.clone()],
                };
                let ghost rs0 = repos@;
                repos.push(entry);
                proof {
                    assert(!group_keys(prefix, key@).contains(k)) by {
                        if group_keys(prefix, key@).contains(k) {
                            let j2 = choose|j2: int|
                                0 <= j2 < group_keys(prefix, key@).len() && group_keys(
                                    prefix,
                                    key@,
                                )[j2] == k;
                            assert(repo_key_view(rs0[j2]) == k);
                        }
                    }
                    assert(group_keys(crates@.take(i + 1), key@) == group_keys(
                        prefix,
                        key@,
                    ).push(k));
                    assert forall|j2: int| 0 <= j2 < repos@.len() implies (#[trigger] repos@[j2]).crates@
                        == group_members(
                        crates@.take(i + 1),
                        key@,
                        group_keys(crates@.take(i + 1), key@)[j2],
                    ) by {
                        lemma_members_push(
                            prefix,
                            key@,
                            group_keys(crates@.take(i + 1), key@)[j2],
                            crates@[i as int],
                        );
                        if j2 < repos@.len() - 1 {
                            assert(repos@[j2] == rs0[j2]);
                            assert(group_keys(prefix, key@)[j2] != k);
                        } else {
                            assert forall|i2: int| 0 <= i2 < prefix.len() implies key@(prefix[i2])
                                != Some(k) by {
                                if key@(prefix[i2]) == Some(k) {
                                    assert(group_keys(prefix, key@).contains(k));
                                }
                            }
                            crate::grouping::lemma_members_absent(prefix, key@, k);
                            assert(repos@[j2].crates@ =~= Seq::<Crate>::empty().push(
                                crates@[i as int],
                            ));
                        }
                    }
                }
            }
        }
        i = i + 1;
    }
    proof {
        assert(crates@.take(crates@.len() as int) =~= crates@);
    }
    repos
}

/// Law: repository grouping is idempotent — grouping the flattened
/// groups of `cs` yields the same key list and the same groups.
pub proof fn lemma_repo_grouping_idempotent(cs: Seq<Crate>)
    ensures
        group_keys(concat_members(cs, repo_key_fn(), group_keys(cs, repo_key_fn())), repo_key_fn())
            == group_keys(cs, repo_key_fn()),
        forall|k: (Seq<char>, Seq<char>, Seq<char>)|
            group_keys(cs, repo_key_fn()).contains(k) ==> #[trigger] group_members(
                concat_members(cs, repo_key_fn(), group_keys(cs, repo_key_fn())),
                repo_key_fn(),
                k,
            ) == group_members(cs, repo_key_fn(), k),
{
    let key = repo_key_fn();
    let ks = group_keys(cs, key);
    lemma_group_keys_props(cs, key);
    assert forall|k: (Seq<char>, Seq<char>, Seq<char>)| ks.contains(k) implies group_members(
        cs,
        key,
        k,
    ).len() > 0 by {
        let i = choose|i: int| 0 <= i < cs.len() && key(cs[i]) == Some(k);
        lemma_members_present(cs, key, k, i);
    }
    lemma_regroup(cs, key, ks);
}

} // verus!
