//! Per-user report pages: resolving each owner's crate ids to records,
//! counting them, sorting them newest-first, and the index of all users
//! that own at least one crate, sorted by name.
use crate::grouping::lemma_filter_push;
use crate::owners::CratesByOwner;
use crate::pages::RenderRequest;
use crate::strutil::{lemma_lex_total, lemma_lex_trans, lex_leq, lowercase, lower_seq, str_leq};
use crate::{Crate, User};
use vstd::prelude::*;
use vstd::seq_lib::{group_to_multiset_ensures, lemma_multiset_commutative};
use vstd::string::{StringExecFns, StrSliceExecFns};

verus! {

/// The error of a report run: the owner index referenced a crate id
/// that the crate set does not contain.
#[derive(Clone, Copy, PartialEq, Eq, Structural, Debug)]
pub enum ReportError {
    UnknownCrateId,
}

/// Index of the first crate at or after `j` whose id is `id`, or the
/// length of `cs` when there is none.
pub open spec fn find_id_from(cs: Seq<Crate>, j: int, id: Seq<char>) -> int
    decreases cs.len() - j,
{
    if j < 0 {
        j
    } else if j >= cs.len() {
        cs.len() as int
    } else if cs[j].id@ == id {
        j
    } else {
        find_id_from(cs, j + 1, id)
    }
}

/// The id is carried by some crate of `cs`.
pub open spec fn known_id(cs: Seq<Crate>, id: Seq<char>) -> bool {
    find_id_from(cs, 0, id) < cs.len()
}

/// Every id of the list is carried by some crate of `cs`.
pub open spec fn all_known(cs: Seq<Crate>, ids: Seq<Seq<char>>) -> bool {
    forall|i: int| 0 <= i < ids.len() ==> known_id(cs, ids[i])
}

/// The records the ids stand for: for each id, the first crate of `cs`
/// that carries it.
pub open spec fn resolve(cs: Seq<Crate>, ids: Seq<Seq<char>>) -> Seq<Crate> {
    Seq::new(ids.len(), |i: int| cs[find_id_from(cs, 0, ids[i])])
}

/// The views of a list of strings.
pub open spec fn str_views(v: Seq<String>) -> Seq<Seq<char>> {
    v.map_values(|s: String| s@)
}

/// Position of the first crate carrying the id, if any.
fn find_crate(crates: &Vec<Crate>, id: &String) -> (r: Option<usize>)
    ensures
        match r {
            Some(j) => j == find_id_from(crates@, 0, id@) && j < crates@.len(),
            None => !known_id(crates@, id@),
        },
{
    let n = crates.len();
    let mut j: usize = 0;
    while j < n
        invariant
            n == crates@.len(),
            0 <= j <= n,
            find_id_from(crates@, 0, id@) == find_id_from(crates@, j as int, id@),
        decreases n - j,
    {
        if crates[j].id == *id {
            return Some(j);
        }
        j = j + 1;
    }
    None
}

/// Looks every id up; `None` as soon as one is unknown.
fn resolve_crates(crates: &Vec<Crate>, ids: &Vec<String>) -> (r: Option<Vec<Crate>>)
    ensures
        match r {
            Some(v) => all_known(crates@, str_views(ids@)) && v@ == resolve(
                crates@,
                str_views(ids@),
            ),
            None => !all_known(crates@, str_views(ids@)),
        },
{
    let mut out: Vec<Crate> = Vec::new();
    let mut i: usize = 0;
    while i < ids.len()
        invariant
            0 <= i <= ids@.len(),
            forall|q: int| 0 <= q < i ==> known_id(crates@, str_views(ids@)[q]),
            out@ == resolve(crates@, str_views(ids@)).take(i as int),
        decreases ids@.len() - i,
    {
        match find_crate(crates, &ids[i]) {
            Some(j) => {
                out.push(crates[j].clone());
                proof {
                    assert(resolve(crates@, str_views(ids@)).take(i + 1) =~= resolve(
                        crates@,
                        str_views(ids@),
                    ).take(i as int).push(crates@[j as int]));
                }
            },
            None => {
                assert(!known_id(crates@, str_views(ids@)[i as int]));
                return None;
            },
        }
        i = i + 1;
    }
    proof {
        assert(resolve(crates@, str_views(ids@)).take(ids@.len() as int) =~= resolve(
            crates@,
            str_views(ids@),
        ));
    }
    Some(out)
}

/// Newest first: the timestamps never increase along the listing.
pub open spec fn sorted_by_updated_desc(s: Seq<Crate>) -> bool {
    forall|a: int, b: int|
        0 <= a <= b < s.len() ==> (#[trigger] s[a]).updated_at >= (#[trigger] s[b]).updated_at
}

/// Names never decrease along the listing.
pub open spec fn sorted_by_name(s: Seq<User>) -> bool {
    forall|a: int, b: int|
        0 <= a <= b < s.len() ==> lex_leq((#[trigger] s[a]).name@, (#[trigger] s[b]).name@)
}

/// Inserting an element anywhere adds exactly it to the multiset.
proof fn lemma_insert_multiset<T>(s: Seq<T>, i: int, x: T)
    requires
        0 <= i <= s.len(),
    ensures
        s.insert(i, x).to_multiset() == s.to_multiset().insert(x),
{
    broadcast use group_to_multiset_ensures;

    let a = s.subrange(0, i);
    let b = s.subrange(i, s.len() as int);
    assert(s.insert(i, x) == a.push(x) + b);
    assert(s =~= a + b);
    lemma_multiset_commutative(a.push(x), b);
    lemma_multiset_commutative(a, b);
    a.to_multiset_ensures();
    assert(a.push(x).to_multiset() =~= a.to_multiset().insert(x));
    assert(a.to_multiset().insert(x).add(b.to_multiset()) =~= a.to_multiset().add(
        b.to_multiset(),
    ).insert(x));
}

/// Position before the first record older than the key.
fn insert_pos_crate(out: &Vec<Crate>, key: u64) -> (p: usize)
    ensures
        p <= out@.len(),
        forall|q: int| 0 <= q < p ==> (#[trigger] out@[q]).updated_at >= key,
        p < out@.len() ==> out@[p as int].updated_at < key,
{
    let mut p: usize = 0;
    while p < out.len()
        invariant
            0 <= p <= out@.len(),
            forall|q: int| 0 <= q < p ==> (#[trigger] out@[q]).updated_at >= key,
        decreases out@.len() - p,
    {
        if out[p].updated_at < key {
            return p;
        }
        p = p + 1;
    }
    p
}

/// Sorts crates newest first. Records with equal timestamps keep their
/// input order (the insertion is behind all equal keys).
pub fn sort_crates_by_updated_desc(v: Vec<Crate>) -> (r: Vec<Crate>)
    ensures
        r@.to_multiset() == v@.to_multiset(),
        r@.len() == v@.len(),
        sorted_by_updated_desc(r@),
{
    broadcast use group_to_multiset_ensures;

    let mut out: Vec<Crate> = Vec::new();
    let mut i: usize = 0;
    while i < v.len()
        invariant
            0 <= i <= v@.len(),
            out@.len() == i,
            out@.to_multiset() == v@.take(i as int).to_multiset(),
            sorted_by_updated_desc(out@),
        decreases v@.len() - i,
    {
        let c = v[i].clone();
        let p = insert_pos_crate(&out, c.updated_at);
        let ghost out0 = out@;
        out.insert(p, c);
        proof {
            lemma_insert_multiset(out0, p as int, c);
            assert(v@.take(i + 1) =~= v@.take(i as int).push(v@[i as int]));
            v@.take(i as int).to_multiset_ensures();
            assert(v@.take(i as int).push(v@[i as int]).to_multiset() =~= v@.take(
                i as int,
            ).to_multiset().insert(v@[i as int]));
            out0.insert_ensures(p as int, c);
            assert forall|a: int, b: int| 0 <= a <= b < out@.len() implies (
            #[trigger] out@[a]).updated_at >= (#[trigger] out@[b]).updated_at by {
                if a < p && b > p {
                    assert(out@[a] == out0[a] && out@[b] == out0[b - 1]);
                }
            }
        }
        i = i + 1;
    }
    proof {
        assert(v@.take(v@.len() as int) =~= v@);
    }
    out
}

/// Position before the first user whose name orders after the key.
fn insert_pos_user(out: &Vec<User>, name: &String) -> (p: usize)
    ensures
        p <= out@.len(),
        forall|q: int| 0 <= q < p ==> lex_leq((#[trigger] out@[q]).name@, name@),
        p < out@.len() ==> !lex_leq(out@[p as int].name@, name@),
{
    let mut p: usize = 0;
    while p < out.len()
        invariant
            0 <= p <= out@.len(),
            forall|q: int| 0 <= q < p ==> lex_leq((#[trigger] out@[q]).name@, name@),
        decreases out@.len() - p,
    {
        if !str_leq(out[p].name.as_str(), name.as_str()) {
            return p;
        }
        p = p + 1;
    }
    p
}

/// Sorts users by name. Users with equal names keep their input order.
#[verifier::rlimit(60)]
#[verifier::spinoff_prover]
pub fn sort_users_by_name(v: Vec<User>) -> (r: Vec<User>)
    ensures
        r@.to_multiset() == v@.to_multiset(),
        r@.len() == v@.len(),
        sorted_by_name(r@),
{
    broadcast use group_to_multiset_ensures;

    let mut out: Vec<User> = Vec::new();
    let mut i: usize = 0;
    while i < v.len()
        invariant
            0 <= i <= v@.len(),
            out@.len() == i,
            out@.to_multiset() == v@.take(i as int).to_multiset(),
            sorted_by_name(out@),
        decreases v@.len() - i,
    {
        let u = v[i].clone();
        let p = insert_pos_user(&out, &u.name);
        let ghost out0 = out@;
        let ghost un = u.name@;
        out.insert(p, u);
        proof {
            lemma_insert_multiset(out0, p as int, out@[p as int]);
            assert(v@.take(i + 1) =~= v@.take(i as int).push(v@[i as int]));
            v@.take(i as int).to_multiset_ensures();
            assert(v@.take(i as int).push(v@[i as int]).to_multiset() =~= v@.take(
                i as int,
            ).to_multiset().insert(v@[i as int]));
            out0.insert_ensures(p as int, out@[p as int]);
            if (p as int) < out0.len() {
                lemma_lex_total(out0[p as int].name@, un, 0);
            }
            assert forall|a: int, b: int| 0 <= a <= b < out@.len() implies lex_leq(
                (#[trigger] out@[a]).name@,
                (#[trigger] out@[b]).name@,
            ) by {
                if a == b {
                    lemma_lex_total(out@[a].name@, out@[a].name@, 0);
                } else if b == p {
                    if a < p {
                        assert(lex_leq(out0[a].name@, un));
                    }
                } else if a == p {
                    // b > p: the displaced record orders after the key.
                    assert(out@[b] == out0[b - 1]);
                    assert(!lex_leq(out0[p as int].name@, un));
                    assert(lex_leq(un, out0[p as int].name@));
                    assert(lex_leq(out0[p as int].name@, out0[b - 1].name@));
                    lemma_lex_trans(un, out0[p as int].name@, out0[b - 1].name@, 0);
                } else if a < p && b > p {
                    assert(out@[a] == out0[a] && out@[b] == out0[b - 1]);
                }
            }
        }
        i = i + 1;
    }
    proof {
        assert(v@.take(v@.len() as int) =~= v@);
    }
    out
}

/// The user has an entry in the owner index.
pub open spec fn has_entry(m: CratesByOwner, uid: Seq<char>) -> bool {
    exists|j: int| 0 <= j < m.entries@.len() && (#[trigger] m.entries@[j]).owner_id@ == uid
}

/// The position of the user's entry in the owner index.
pub open spec fn entry_index(m: CratesByOwner, uid: Seq<char>) -> int {
    choose|j: int| 0 <= j < m.entries@.len() && (#[trigger] m.entries@[j]).owner_id@ == uid
}

/// The crate ids the owner index records for the user.
pub open spec fn entry_ids(m: CratesByOwner, uid: Seq<char>) -> Seq<Seq<char>> {
    m.ids_at(entry_index(m, uid))
}

/// The user owns at least one crate according to the owner index.
pub open spec fn has_crates(m: CratesByOwner, uid: Seq<char>) -> bool {
    has_entry(m, uid) && entry_ids(m, uid).len() > 0
}

/// The users that own at least one crate, in input order.
pub open spec fn selected_users(users: Seq<User>, m: CratesByOwner) -> Seq<User> {
    users.filter(|u: User| has_crates(m, u.id@))
}

/// The user with the count field set to `n`.
pub open spec fn with_count(u: User, n: u64) -> User {
    User { id: u.id, name: u.name, gh_login: u.gh_login, count: n }
}

/// The count a user's page reports: the number of resolved crates.
pub open spec fn spec_user_count(cs: Seq<Crate>, m: CratesByOwner, u: User) -> u64 {
    resolve(cs, entry_ids(m, u.id@)).len() as u64
}

/// The selected users with their counts set, in input order.
pub open spec fn decorated_users(cs: Seq<Crate>, users: Seq<User>, m: CratesByOwner) -> Seq<
    User,
> {
    selected_users(users, m).map_values(|u: User| with_count(u, spec_user_count(cs, m, u)))
}

/// What the page of user `u` looks like: destination from the
/// lower-cased login, the user's crates newest first, the count set.
pub open spec fn is_user_page(
    req: RenderRequest,
    cs: Seq<Crate>,
    m: CratesByOwner,
    u: User,
) -> bool {
    &&& req matches RenderRequest::UserPage { destination, title, user, items }
    &&& destination@ == "users/"@ + lower_seq(u.gh_login@)
    &&& title@ == u.name@
    &&& user == with_count(u, spec_user_count(cs, m, u))
    &&& items@.to_multiset() == resolve(cs, entry_ids(m, u.id@)).to_multiset()
    &&& sorted_by_updated_desc(items@)
}

/// Copies a user list; the copy holds the same records.
fn clone_users(v: &Vec<User>) -> (r: Vec<User>)
    ensures
        r@ == v@,
{
    let mut out: Vec<User> = Vec::new();
    let mut i: usize = 0;
    while i < v.len()
        invariant
            0 <= i <= v@.len(),
            out@ == v@.take(i as int),
        decreases v@.len() - i,
    {
        out.push(v[i].clone());
        proof {
            assert(v@.take(i + 1) =~= v@.take(i as int).push(v@[i as int]));
        }
        i = i + 1;
    }
    proof {
        assert(v@.take(v@.len() as int) =~= v@);
    }
    out
}

/// The index page of all users that own at least one crate.
pub fn generate_list_of_users(users: &Vec<User>) -> (r: RenderRequest)
    ensures
        (r matches RenderRequest::UserIndexPage { destination, title, users: us }
            && destination@ == "users/index"@ && title@ == "Users"@ && us@ == users@),
{
    RenderRequest::UserIndexPage {
        destination: String::from_str("users/index"),
        title: String::from_str("Users"),
        users: clone_users(users),
    }
}

/// One page per user that owns at least one crate, in user order, then
/// the index of those users sorted by name. Each user's crates are
/// resolved from the owner index, counted, and sorted newest first. An
/// id in the owner index that no crate carries aborts the run.
pub fn generate_user_pages(
    crates: &Vec<Crate>,
    users: Vec<User>,
    crates_by_owner: &CratesByOwner,
) -> (r: Result<Vec<RenderRequest>, ReportError>)
    requires
        crates_by_owner.wf(),
    ensures
        match r {
            Ok(reqs) => {
                let sel = selected_users(users@, *crates_by_owner);
                &&& forall|i: int|
                    0 <= i < users@.len() ==> (has_entry(*crates_by_owner, (
                    #[trigger] users@[i]).id@) ==> all_known(
                        crates@,
                        entry_ids(*crates_by_owner, users@[i].id@),
                    ))
                &&& reqs@.len() == sel.len() + 1
                &&& forall|i: int|
                    0 <= i < sel.len() ==> is_user_page(
                        #[trigger] reqs@[i],
                        crates@,
                        *crates_by_owner,
                        sel[i],
                    )
                &&& (reqs@[sel.len() as int] matches RenderRequest::UserIndexPage {
                    destination,
                    title,
                    users: us,
                } && {
                    &&& destination@ == "users/index"@
                    &&& title@ == "Users"@
                    &&& us@.to_multiset() == decorated_users(
                        crates@,
                        users@,
                        *crates_by_owner,
                    ).to_multiset()
                    &&& sorted_by_name(us@)
                    &&& forall|j: int| 0 <= j < us@.len() ==> (#[trigger] us@[j]).count > 0
                })
            },
            Err(e) => {
                &&& e == ReportError::UnknownCrateId
                &&& exists|i: int|
                    0 <= i < users@.len() && has_entry(*crates_by_owner, (
                    #[trigger] users@[i]).id@) && !all_known(
                        crates@,
                        entry_ids(*crates_by_owner, users@[i].id@),
                    )
            },
        },
{
    let m = crates_by_owner;
    let mut reqs: Vec<RenderRequest> = Vec::new();
    let mut users_with: Vec<User> = Vec::new();
    let mut i: usize = 0;
    while i < users.len()
        invariant
            crates_by_owner.wf(),
            m == crates_by_owner,
            0 <= i <= users@.len(),
            forall|q: int|
                0 <= q < i ==> (has_entry(*m, (#[trigger] users@[q]).id@) ==> all_known(
                    crates@,
                    entry_ids(*m, users@[q].id@),
                )),
            reqs@.len() == selected_users(users@.take(i as int), *m).len(),
            forall|q: int|
                0 <= q < reqs@.len() ==> is_user_page(
                    #[trigger] reqs@[q],
                    crates@,
                    *m,
                    selected_users(users@.take(i as int), *m)[q],
                ),
            users_with@ == decorated_users(crates@, users@.take(i as int), *m),
            forall|q: int| 0 <= q < users_with@.len() ==> (#[trigger] users_with@[q]).count > 0,
        decreases users@.len() - i,
    {
        let u = &users[i];
        let ghost prefix = users@.take(i as int);
        let ghost pred = |x: User| has_crates(*m, x.id@);
        proof {
            assert(prefix.push(users@[i as int]) =~= users@.take(i + 1));
        }
        match m.get(&u.id) {
            None => {
                proof {
                    assert(!has_entry(*m, users@[i as int].id@));
                    lemma_filter_push(prefix, pred, users@[i as int]);
                    assert(selected_users(users@.take(i + 1), *m) == selected_users(prefix, *m));
                    assert(users_with@ =~= decorated_users(crates@, users@.take(i + 1), *m));
                }
            },
            Some(ids_vec) => {
                proof {
                    let uid = users@[i as int].id@;
                    let j0 = choose|j: int|
                        0 <= j < m.entries@.len() && (#[trigger] m.entries@[j]).owner_id@ == uid
                            && ids_vec@ == m.entries@[j].crate_ids@;
                    assert(has_entry(*m, uid));
                    let j1 = entry_index(*m, uid);
                    assert(0 <= j1 < m.entries@.len() && m.entries@[j1].owner_id@ == uid);
                    if j0 != j1 {
                        assert(false);
                    }
                    assert(entry_ids(*m, uid) == str_views(ids_vec@));
                }
                match resolve_crates(crates, ids_vec) {
                    None => {
                        proof {
                            assert(has_entry(*m, users@[i as int].id@) && !all_known(
                                crates@,
                                entry_ids(*m, users@[i as int].id@),
                            ));
                        }
                        return Err(ReportError::UnknownCrateId);
                    },
                    Some(selected) => {
                        if selected.len() == 0 {
                            proof {
                                assert(entry_ids(*m, users@[i as int].id@).len() == 0);
                                assert(!has_crates(*m, users@[i as int].id@));
                                lemma_filter_push(prefix, pred, users@[i as int]);
                                assert(selected_users(users@.take(i + 1), *m) == selected_users(
                                    prefix,
                                    *m,
                                ));
                                assert(users_with@ =~= decorated_users(
                                    crates@,
                                    users@.take(i + 1),
                                    *m,
                                ));
                            }
                        } else {
                            let cnt = selected.len();
                            let sorted = sort_crates_by_updated_desc(selected);
                            let mut user2 = u.clone();
                            user2.count = cnt as u64;
                            let mut destination = String::from_str("users/");
                            let login_low = lowercase(u.gh_login.as_str());
                            destination.append(login_low.as_str());
                            let title = u.name.clone();
                            let page = RenderRequest::UserPage {
                                destination,
                                title,
                                user: user2.clone(),
                                items: sorted,
                            };
                            let ghost reqs0 = reqs@;
                            let ghost uw0 = users_with@;
                            reqs.push(page);
                            users_with.push(user2);
                            proof {
                                let uval = users@[i as int];
                                assert(has_crates(*m, uval.id@));
                                lemma_filter_push(prefix, pred, uval);
                                let sel0 = selected_users(prefix, *m);
                                let sel1 = selected_users(users@.take(i + 1), *m);
                                assert(sel1 == sel0.push(uval));
                                assert(users_with@[uw0.len() as int] == with_count(
                                    uval,
                                    spec_user_count(crates@, *m, uval),
                                ));
                                assert(is_user_page(
                                    reqs@[reqs0.len() as int],
                                    crates@,
                                    *m,
                                    uval,
                                ));
                                assert forall|q: int| 0 <= q < reqs@.len() implies is_user_page(
                                    #[trigger] reqs@[q],
                                    crates@,
                                    *m,
                                    sel1[q],
                                ) by {
                                    if q < reqs0.len() {
                                        assert(reqs@[q] == reqs0[q]);
                                        assert(sel1[q] == sel0[q]);
                                    }
                                }
                                assert(users_with@ =~= decorated_users(
                                    crates@,
                                    users@.take(i + 1),
                                    *m,
                                ));
                            }
                        }
                    },
                }
            },
        }
        i = i + 1;
    }
    proof {
        assert(users@.take(users@.len() as int) =~= users@);
    }
    let ghost uw = users_with@;
    let sorted_users = sort_users_by_name(users_with);
    proof {
        assert forall|j: int| 0 <= j < sorted_users@.len() implies (
        #[trigger] sorted_users@[j]).count > 0 by {
            sorted_users@.to_multiset_ensures();
            uw.to_multiset_ensures();
            assert(sorted_users@.contains(sorted_users@[j]));
            assert(sorted_users@.to_multiset().count(sorted_users@[j]) > 0);
            assert(uw.contains(sorted_users@[j]));
            let q = choose|q: int| 0 <= q < uw.len() && uw[q] == sorted_users@[j];
            assert(uw[q].count > 0);
        }
    }
    let index_page = generate_list_of_users(&sorted_users);
    reqs.push(index_page);
    Ok(reqs)
}

} // verus!
