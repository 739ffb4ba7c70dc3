//! Category-membership predicates over a single crate record. An empty
//! string is the sentinel for an absent field throughout.
use crate::url::{get_owner_and_repo, spec_owner_and_repo};
use crate::Crate;
use vstd::prelude::*;
use vstd::string::StringExecFns;

verus! {

pub open spec fn spec_no_homepage_no_repo(c: Crate) -> bool {
    c.homepage@.len() == 0 && c.repository@.len() == 0
}

pub open spec fn spec_has_homepage_no_repo(c: Crate) -> bool {
    c.homepage@.len() > 0 && c.repository@.len() == 0
}

pub open spec fn spec_has_repo(c: Crate) -> bool {
    c.repository@.len() > 0
}

pub open spec fn spec_missing_owner_name(c: Crate) -> bool {
    c.owner_name@.len() == 0
}

pub open spec fn spec_missing_owner(c: Crate) -> bool {
    c.owner_name@.len() == 0 && c.owner_gh_login@.len() == 0
}

/// The crate's repository parses to the given normalized host and the
/// given CI flag is off.
pub open spec fn spec_on_host_but_no_ci(c: Crate, host: Seq<char>, ci: bool) -> bool {
    &&& c.repository@.len() > 0
    &&& spec_owner_and_repo(c.repository@).1.len() > 0
    &&& spec_owner_and_repo(c.repository@).0 == host
    &&& !ci
}

pub open spec fn spec_on_github_but_no_ci(c: Crate) -> bool {
    spec_on_host_but_no_ci(c, "github"@, c.details.has_github_action)
}

pub open spec fn spec_on_gitlab_but_no_ci(c: Crate) -> bool {
    spec_on_host_but_no_ci(c, "gitlab"@, c.details.has_gitlab_pipeline)
}

/// True iff the crate declares neither a homepage nor a repository.
pub fn no_homepage_no_repo(w: &Crate) -> (r: bool)
    ensures
        r == spec_no_homepage_no_repo(*w),
{
    w.homepage.as_str().is_empty() && w.repository.as_str().is_empty()
}

/// True iff the crate declares a homepage but no repository.
pub fn has_homepage_no_repo(w: &Crate) -> (r: bool)
    ensures
        r == spec_has_homepage_no_repo(*w),
{
    !w.homepage.as_str().is_empty() && w.repository.as_str().is_empty()
}

/// True iff the crate's owner has no display name.
pub fn missing_owner_name(w: &Crate) -> (r: bool)
    ensures
        r == spec_missing_owner_name(*w),
{
    w.owner_name.as_str().is_empty()
}

/// True iff the crate's owner has neither a display name nor a login.
pub fn missing_owner(w: &Crate) -> (r: bool)
    ensures
        r == spec_missing_owner(*w),
{
    w.owner_name.as_str().is_empty() && w.owner_gh_login.as_str().is_empty()
}

/// True iff the crate's repository is hosted on github and no github
/// action is configured for it.
pub fn on_github_but_no_ci(krate: &Crate) -> (r: bool)
    ensures
        r == spec_on_github_but_no_ci(*krate),
{
    if krate.repository.as_str().is_empty() {
        return false;
    }
    let (host, owner, _name) = get_owner_and_repo(krate.repository.as_str());
    if owner.as_str().is_empty() {
        return false;
    }
    if !(host == String::from_str("github")) {
        return false;
    }
    if krate.details.has_github_action {
        return false;
    }
    true
}

/// True iff the crate's repository is hosted on gitlab and no gitlab
/// pipeline is configured for it.
pub fn on_gitlab_but_no_ci(krate: &Crate) -> (r: bool)
    ensures
        r == spec_on_gitlab_but_no_ci(*krate),
{
    if krate.repository.as_str().is_empty() {
        return false;
    }
    let (host, owner, _name) = get_owner_and_repo(krate.repository.as_str());
    if owner.as_str().is_empty() {
        return false;
    }
    if !(host == String::from_str("gitlab")) {
        return false;
    }
    if krate.details.has_gitlab_pipeline {
        return false;
    }
    true
}

/// Law: over the homepage/repository axis the three categories
/// "no homepage and no repository", "homepage but no repository" and
/// "has a repository" are mutually exclusive and jointly exhaustive.
pub proof fn lemma_homepage_repo_partition(c: Crate)
    ensures
        spec_no_homepage_no_repo(c) || spec_has_homepage_no_repo(c) || spec_has_repo(c),
        !(spec_no_homepage_no_repo(c) && spec_has_homepage_no_repo(c)),
        !(spec_no_homepage_no_repo(c) && spec_has_repo(c)),
        !(spec_has_homepage_no_repo(c) && spec_has_repo(c)),
{
}

} // verus!
