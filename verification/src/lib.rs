//! Report-generation pipeline for a package-registry site: classifies crate
//! records with boolean predicates, groups them by repository and by owner,
//! paginates listings, and assembles the set of pages to render.
//!
//! The pipeline is pure: it consumes in-memory records and produces a
//! manifest of render requests (destination key, title, data). Turning a
//! request into HTML and writing it to disk is the caller's concern.
use vstd::prelude::*;

pub mod grouping;
pub mod owners;
pub mod pages;
pub mod predicates;
pub mod repos;
pub mod strutil;
pub mod url;
pub mod userpages;

verus! {

/// Upper bound on the number of crates shown on one list page.
pub const PAGE_SIZE: usize = 100;

/// CI configuration flags observed for a crate's repository.
#[derive(Clone, Copy, PartialEq, Eq, Structural, Debug)]
pub struct CrateDetails {
    pub has_github_action: bool,
    pub has_gitlab_pipeline: bool,
}

/// One package record of the registry. An empty string in any of the
/// string fields means the field is absent.
pub struct Crate {
    /// Unique identifier of the record.
    pub id: String,
    /// Package name, used for the per-crate page destination.
    pub name: String,
    /// Identifier of the owning account; empty when the owner is unknown.
    pub owner_id: String,
    /// Display name of the owner; empty when unknown.
    pub owner_name: String,
    /// VCS login of the owner; empty when unknown.
    pub owner_gh_login: String,
    /// Homepage URL; empty when the crate declares none.
    pub homepage: String,
    /// Repository URL; empty when the crate declares none.
    pub repository: String,
    /// Last-updated timestamp, as a number that orders releases in time.
    pub updated_at: u64,
    pub details: CrateDetails,
}

impl Clone for Crate {
    fn clone(&self) -> (r: Self)
        ensures
            r == *self,
    {
        Crate {
            id: self.id.clone(),
            name: self.name.clone(),
            owner_id: self.owner_id.clone(),
            owner_name: self.owner_name.clone(),
            owner_gh_login: self.owner_gh_login.clone(),
            homepage: self.homepage.clone(),
            repository: self.repository.clone(),
            updated_at: self.updated_at,
            details: self.details,
        }
    }
}

/// An account that may own crates. `count` is filled in during report
/// assembly with the number of crates the account owns.
pub struct User {
    /// Unique identifier, matched against `Crate::owner_id`.
    pub id: String,
    /// Display name.
    pub name: String,
    /// VCS login, used (lower-cased) for the per-user page destination.
    pub gh_login: String,
    /// Number of crates owned; written once during assembly.
    pub count: u64,
}

impl Clone for User {
    fn clone(&self) -> (r: Self)
        ensures
            r == *self,
    {
        User {
            id: self.id.clone(),
            name: self.name.clone(),
            gh_login: self.gh_login.clone(),
            count: self.count,
        }
    }
}

} // verus!
