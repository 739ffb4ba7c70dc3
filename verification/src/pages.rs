//! The report assembler: computes, for a given dataset, the exact set of
//! pages to render — each a destination key, a title and the data to
//! embed. Rendering a request to HTML and writing it out is the caller's
//! concern.
use crate::grouping::{group_keys, group_members, lemma_filter_push};
use crate::predicates::{
    has_homepage_no_repo, missing_owner, missing_owner_name, no_homepage_no_repo,
    on_github_but_no_ci, on_gitlab_but_no_ci, spec_has_homepage_no_repo, spec_missing_owner,
    spec_missing_owner_name, spec_no_homepage_no_repo, spec_on_github_but_no_ci,
    spec_on_gitlab_but_no_ci,
};
use crate::repos::{clone_crates, collect_repos, repo_key_fn, repo_key_view, repo_wf, Repo};
use crate::{Crate, User, PAGE_SIZE};
use vstd::prelude::*;
use vstd::string::StringExecFns;

verus! {

/// Counts and share of one report category on the statistics page.
/// The percentage is in hundredths of a percent (`1234` reads `12.34%`).
#[derive(Clone, Copy, PartialEq, Eq, Structural, Debug)]
pub struct CategoryStats {
    pub count: usize,
    pub percentage: u64,
}

/// The aggregates of the statistics page.
#[derive(Clone, Copy, PartialEq, Eq, Structural, Debug)]
pub struct Stats {
    pub total: usize,
    pub repos_total: usize,
    pub home_page_but_no_repo: CategoryStats,
    pub no_homepage_no_repo_crates: CategoryStats,
    pub github_but_no_ci: CategoryStats,
    pub gitlab_but_no_ci: CategoryStats,
}

/// One page to render: its destination key (the output file name stems
/// from it), its title, and the data to embed.
pub enum RenderRequest {
    /// A listing of crates, paginated to the first page.
    ListPage { destination: String, title: String, total: usize, items: Vec<Crate> },
    /// The index of all repositories.
    RepoIndexPage { destination: String, title: String, repos: Vec<Repo> },
    /// A fixed page with no data beyond its title.
    StaticPage { destination: String, title: String },
    /// The detail page of one crate.
    CratePage { destination: String, title: String, krate: Crate },
    /// One user's page with their crates, newest first.
    UserPage { destination: String, title: String, user: User, items: Vec<Crate> },
    /// The index of all users that own at least one crate.
    UserIndexPage { destination: String, title: String, users: Vec<User> },
    /// The statistics page.
    StatsPage { destination: String, title: String, stats: Stats },
}

/// The first page of a listing: the whole list when it is short enough,
/// otherwise its first `n` records.
pub open spec fn page_of(cs: Seq<Crate>, n: int) -> Seq<Crate> {
    if cs.len() <= n {
        cs
    } else {
        cs.take(n)
    }
}

/// Cuts a listing to its first page of at most `n` records. The page
/// holds `min(n, len)` records: the first `n` in order, or all of them.
pub fn cut(crates: &Vec<Crate>, n: usize) -> (r: Vec<Crate>)
    ensures
        r@ == page_of(crates@, n as int),
        r@.len() == if (n as int) <= crates@.len() {
            n as int
        } else {
            crates@.len() as int
        },
{
    let limit: usize = if n <= crates.len() {
        n
    } else {
        crates.len()
    };
    let mut out: Vec<Crate> = Vec::new();
    let mut i: usize = 0;
    while i < limit
        invariant
            0 <= i <= limit <= crates@.len(),
            out@ == crates@.take(i as int),
        decreases limit - i,
    {
        out.push(crates[i].clone());
        proof {
            assert(crates@.take(i + 1) =~= crates@.take(i as int).push(crates@[i as int]));
        }
        i = i + 1;
    }
    proof {
        if crates@.len() <= n {
            assert(crates@.take(crates@.len() as int) =~= crates@);
        }
    }
    out
}

/// Share of `part` in `total`, in hundredths of a percent, rounded down;
/// a share of an empty total is 0, not an error.
pub fn percentage(part: usize, total: usize) -> (r: u64)
    requires
        part <= total,
    ensures
        r == if total == 0 {
            0int
        } else {
            part * 10000 / (total as int)
        },
{
    if total == 0 {
        0
    } else {
        let wide: u128 = (part as u128) * 10000 / (total as u128);
        proof {
            assert((part as int) * 10000 / (total as int) <= 10000) by (nonlinear_arith)
                requires
                    0 < total,
                    0 <= part <= total,
            ;
        }
        wide as u64
    }
}

/// A report category selected by a predicate over one crate.
#[derive(Clone, Copy, PartialEq, Eq, Structural, Debug)]
pub enum Category {
    NoHomepageNoRepo,
    HasHomepageNoRepo,
    GithubNoCi,
    GitlabNoCi,
    NoOwnerName,
    NoOwner,
}

/// The membership predicate of a category.
pub open spec fn category_pred(cat: Category) -> spec_fn(Crate) -> bool {
    match cat {
        Category::NoHomepageNoRepo => |c: Crate| spec_no_homepage_no_repo(c),
        Category::HasHomepageNoRepo => |c: Crate| spec_has_homepage_no_repo(c),
        Category::GithubNoCi => |c: Crate| spec_on_github_but_no_ci(c),
        Category::GitlabNoCi => |c: Crate| spec_on_gitlab_but_no_ci(c),
        Category::NoOwnerName => |c: Crate| spec_missing_owner_name(c),
        Category::NoOwner => |c: Crate| spec_missing_owner(c),
    }
}

/// Whether one crate belongs to the category.
pub fn category_holds(cat: Category, c: &Crate) -> (r: bool)
    ensures
        r == category_pred(cat)(*c),
{
    match cat {
        Category::NoHomepageNoRepo => no_homepage_no_repo(c),
        Category::HasHomepageNoRepo => has_homepage_no_repo(c),
        Category::GithubNoCi => on_github_but_no_ci(c),
        Category::GitlabNoCi => on_gitlab_but_no_ci(c),
        Category::NoOwnerName => missing_owner_name(c),
        Category::NoOwner => missing_owner(c),
    }
}

/// The crates of one category, in input order.
pub fn filter_crates(crates: &Vec<Crate>, cat: Category) -> (r: Vec<Crate>)
    ensures
        r@ == crates@.filter(category_pred(cat)),
{
    let mut out: Vec<Crate> = Vec::new();
    let mut i: usize = 0;
    while i < crates.len()
        invariant
            0 <= i <= crates@.len(),
            out@ == crates@.take(i as int).filter(category_pred(cat)),
        decreases crates@.len() - i,
    {
        let c = &crates[i];
        proof {
            assert(crates@.take(i as int).push(crates@[i as int]) =~= crates@.take(i + 1));
            lemma_filter_push(crates@.take(i as int), category_pred(cat), crates@[i as int]);
        }
        if category_holds(cat, c) {
            out.push(c.clone());
        }
        i = i + 1;
    }
    proof {
        assert(crates@.take(crates@.len() as int) =~= crates@);
    }
    out
}

/// What a list page for the listing `sel` looks like.
pub open spec fn is_list_page(req: RenderRequest, dest: Seq<char>, ttl: Seq<char>, sel: Seq<Crate>) -> bool {
    &&& req matches RenderRequest::ListPage { destination, title, total, items }
    &&& destination@ == dest
    &&& title@ == ttl
    &&& total == sel.len()
    &&& items@ == page_of(sel, PAGE_SIZE as int)
}

/// What the list page of one repository looks like, given its key triple.
pub open spec fn is_repo_list_page(
    req: RenderRequest,
    k: (Seq<char>, Seq<char>, Seq<char>),
    sel: Seq<Crate>,
) -> bool {
    is_list_page(
        req,
        "vcs/"@ + (k.0 + "-"@ + k.1 + "-"@ + k.2),
        "Crates in "@ + (k.0 + "/"@ + k.1 + "/"@ + k.2),
        sel,
    )
}

/// The list page of one listing: full count, first page of records.
pub fn render_list_page(destination: String, title: String, crates: &Vec<Crate>) -> (r:
    RenderRequest)
    ensures
        is_list_page(r, destination@, title@, crates@),
{
    let total = crates.len();
    let items = cut(crates, PAGE_SIZE);
    RenderRequest::ListPage { destination, title, total, items }
}

/// One list page per repository, in repository order: destination
/// `vcs/<slug>`, title `Crates in <display>`, the repository's crates.
pub fn render_list_crates_by_repo(repos: &Vec<Repo>) -> (r: Vec<RenderRequest>)
    requires
        forall|j: int| 0 <= j < repos@.len() ==> repo_wf(#[trigger] repos@[j]),
    ensures
        r@.len() == repos@.len(),
        forall|j: int|
            0 <= j < r@.len() ==> is_repo_list_page(
                #[trigger] r@[j],
                repo_key_view(repos@[j]),
                repos@[j].crates@,
            ),
{
    let mut out: Vec<RenderRequest> = Vec::new();
    let mut i: usize = 0;
    while i < repos.len()
        invariant
            0 <= i <= repos@.len(),
            out@.len() == i,
            forall|j: int| 0 <= j < repos@.len() ==> repo_wf(#[trigger] repos@[j]),
            forall|j: int|
                0 <= j < i ==> is_repo_list_page(
                    #[trigger] out@[j],
                    repo_key_view(repos@[j]),
                    repos@[j].crates@,
                ),
        decreases repos@.len() - i,
    {
        let repo = &repos[i];
        let mut destination = String::from_str("vcs/");
        destination.append(repo.name.as_str());
        let mut title = String::from_str("Crates in ");
        title.append(repo.display.as_str());
        out.push(render_list_page(destination, title, &repo.crates));
        i = i + 1;
    }
    out
}

/// The index page of all repositories.
pub fn render_list_of_repos(repos: &Vec<Repo>) -> (r: RenderRequest)
    ensures
        (r matches RenderRequest::RepoIndexPage { destination, title, repos: rs } ==> {
            &&& destination@ == "vcs/index"@
            &&& title@ == "Repositories"@
            &&& rs@.len() == repos@.len()
            &&& forall|j: int|
                0 <= j < repos@.len() ==> repo_key_view(#[trigger] rs@[j]) == repo_key_view(
                    repos@[j],
                ) && rs@[j].name@ == repos@[j].name@ && rs@[j].display@ == repos@[j].display@
                    && rs@[j].crates@ == repos@[j].crates@
        }),
        r is RepoIndexPage,
{
    let mut rs: Vec<Repo> = Vec::new();
    let mut i: usize = 0;
    while i < repos.len()
        invariant
            0 <= i <= repos@.len(),
            rs@.len() == i,
            forall|j: int|
                0 <= j < i ==> repo_key_view(#[trigger] rs@[j]) == repo_key_view(repos@[j])
                    && rs@[j].name@ == repos@[j].name@ && rs@[j].display@ == repos@[j].display@
                    && rs@[j].crates@ == repos@[j].crates@,
        decreases repos@.len() - i,
    {
        rs.push(repos[i].clone());
        i = i + 1;
    }
    RenderRequest::RepoIndexPage {
        destination: String::from_str("vcs/index"),
        title: String::from_str("Repositories"),
        repos: rs,
    }
}

/// The three fixed pages of the site, each only a destination and title.
pub fn render_static_pages() -> (r: Vec<RenderRequest>)
    ensures
        r@.len() == 3,
        (r@[0] matches RenderRequest::StaticPage { destination, title } && destination@
            == "about"@ && title@ == "About Rust Digger"@),
        (r@[1] matches RenderRequest::StaticPage { destination, title } && destination@
            == "support"@ && title@ == "Support Rust Digger"@),
        (r@[2] matches RenderRequest::StaticPage { destination, title } && destination@
            == "training"@ && title@ == "Training courses"@),
{
    let mut out: Vec<RenderRequest> = Vec::new();
    out.push(
        RenderRequest::StaticPage {
            destination: String::from_str("about"),
            title: String::from_str("About Rust Digger"),
        },
    );
    out.push(
        RenderRequest::StaticPage {
            destination: String::from_str("support"),
            title: String::from_str("Support Rust Digger"),
        },
    );
    out.push(
        RenderRequest::StaticPage {
            destination: String::from_str("training"),
            title: String::from_str("Training courses"),
        },
    );
    out
}

/// One detail page per crate, in input order: destination
/// `crates/<name>`, titled with the crate's name.
pub fn generate_crate_pages(crates: &Vec<Crate>) -> (r: Vec<RenderRequest>)
    ensures
        r@.len() == crates@.len(),
        forall|j: int|
            0 <= j < r@.len() ==> (#[trigger] r@[j] matches RenderRequest::CratePage {
                destination,
                title,
                krate,
            } && destination@ == "crates/"@ + crates@[j].name@ && title@ == crates@[j].name@
                && krate == crates@[j]),
{
    let mut out: Vec<RenderRequest> = Vec::new();
    let mut i: usize = 0;
    while i < crates.len()
        invariant
            0 <= i <= crates@.len(),
            out@.len() == i,
            forall|j: int|
                0 <= j < i ==> (#[trigger] out@[j] matches RenderRequest::CratePage {
                    destination,
                    title,
                    krate,
                } && destination@ == "crates/"@ + crates@[j].name@ && title@ == crates@[j].name@
                    && krate == crates@[j]),
        decreases crates@.len() - i,
    {
        let krate = crates[i].clone();
        let mut destination = String::from_str("crates/");
        destination.append(krate.name.as_str());
        let title = krate.name.clone();
        out.push(RenderRequest::CratePage { destination, title, krate });
        i = i + 1;
    }
    out
}

/// The statistics page: total counts and, per category, its count and
/// its share of the total in hundredths of a percent.
pub fn render_stats_page(
    total: usize,
    repos_total: usize,
    home_page_but_no_repo: usize,
    no_homepage_no_repo_crates: usize,
    github_but_no_ci: usize,
    gitlab_but_no_ci: usize,
) -> (r: RenderRequest)
    requires
        home_page_but_no_repo <= total,
        no_homepage_no_repo_crates <= total,
        github_but_no_ci <= total,
        gitlab_but_no_ci <= total,
    ensures
        (r matches RenderRequest::StatsPage { destination, title, stats } && {
            &&& destination@ == "stats"@
            &&& title@ == "Rust Digger Stats"@
            &&& stats.total == total
            &&& stats.repos_total == repos_total
            &&& stats.home_page_but_no_repo == spec_category_stats(home_page_but_no_repo, total)
            &&& stats.no_homepage_no_repo_crates == spec_category_stats(
                no_homepage_no_repo_crates,
                total,
            )
            &&& stats.github_but_no_ci == spec_category_stats(github_but_no_ci, total)
            &&& stats.gitlab_but_no_ci == spec_category_stats(gitlab_but_no_ci, total)
        }),
{
    let stats = Stats {
        total,
        repos_total,
        home_page_but_no_repo: CategoryStats {
            count: home_page_but_no_repo,
            percentage: percentage(home_page_but_no_repo, total),
        },
        no_homepage_no_repo_crates: CategoryStats {
            count: no_homepage_no_repo_crates,
            percentage: percentage(no_homepage_no_repo_crates, total),
        },
        github_but_no_ci: CategoryStats {
            count: github_but_no_ci,
            percentage: percentage(github_but_no_ci, total),
        },
        gitlab_but_no_ci: CategoryStats {
            count: gitlab_but_no_ci,
            percentage: percentage(gitlab_but_no_ci, total),
        },
    };
    RenderRequest::StatsPage {
        destination: String::from_str("stats"),
        title: String::from_str("Rust Digger Stats"),
        stats,
    }
}

/// The expected statistics entry of one category.
pub open spec fn spec_category_stats(count: usize, total: usize) -> CategoryStats {
    CategoryStats {
        count,
        percentage: (if total == 0 {
            0int
        } else {
            count * 10000 / (total as int)
        }) as u64,
    }
}

/// Assembles the fixed manifest of report pages for the dataset: one
/// list page per repository, the repository index, the full listing, the
/// six category listings, and the statistics page, in that order.
pub fn generate_pages(crates: &Vec<Crate>) -> (r: Vec<RenderRequest>)
    ensures
        ({
            let ks = group_keys(crates@, repo_key_fn());
            &&& r@.len() == ks.len() + 9
            &&& forall|j: int|
                0 <= j < ks.len() ==> is_repo_list_page(
                    #[trigger] r@[j],
                    ks[j],
                    group_members(crates@, repo_key_fn(), ks[j]),
                )
            &&& r@[ks.len() as int] is RepoIndexPage
            &&& is_list_page(r@[ks.len() as int + 1], "index"@, "Rust Digger"@, crates@)
            &&& is_list_page(
                r@[ks.len() as int + 2],
                "github-but-no-ci"@,
                "On GitHub but has no CI"@,
                crates@.filter(category_pred(Category::GithubNoCi)),
            )
            &&& is_list_page(
                r@[ks.len() as int + 3],
                "gitlab-but-no-ci"@,
                "On GitLab but has no CI"@,
                crates@.filter(category_pred(Category::GitlabNoCi)),
            )
            &&& is_list_page(
                r@[ks.len() as int + 4],
                "has-homepage-but-no-repo"@,
                "Has homepage, but no repository"@,
                crates@.filter(category_pred(Category::HasHomepageNoRepo)),
            )
            &&& is_list_page(
                r@[ks.len() as int + 5],
                "no-homepage-no-repo"@,
                "No repository, no homepage"@,
                crates@.filter(category_pred(Category::NoHomepageNoRepo)),
            )
            &&& is_list_page(
                r@[ks.len() as int + 6],
                "crates-without-owner-name"@,
                "Crates without owner name"@,
                crates@.filter(category_pred(Category::NoOwnerName)),
            )
            &&& is_list_page(
                r@[ks.len() as int + 7],
                "crates-without-owner"@,
                "Crates without owner"@,
                crates@.filter(category_pred(Category::NoOwner)),
            )
            &&& (r@[ks.len() as int + 8] matches RenderRequest::StatsPage { destination, title, stats }
                && destination@ == "stats"@ && stats.total == crates@.len()
                && stats.repos_total == ks.len()
                && stats.home_page_but_no_repo == spec_category_stats(
                crates@.filter(category_pred(Category::HasHomepageNoRepo)).len() as usize,
                crates@.len() as usize,
            )
                && stats.no_homepage_no_repo_crates == spec_category_stats(
                crates@.filter(category_pred(Category::NoHomepageNoRepo)).len() as usize,
                crates@.len() as usize,
            )
                && stats.github_but_no_ci == spec_category_stats(
                crates@.filter(category_pred(Category::GithubNoCi)).len() as usize,
                crates@.len() as usize,
            )
                && stats.gitlab_but_no_ci == spec_category_stats(
                crates@.filter(category_pred(Category::GitlabNoCi)).len() as usize,
                crates@.len() as usize,
            ))
        }),
{
    let repos = collect_repos(crates);
    let mut out = render_list_crates_by_repo(&repos);
    out.push(render_list_of_repos(&repos));

    let all_crates = clone_crates(crates);
    out.push(
        render_list_page(String::from_str("index"), String::from_str("Rust Digger"), &all_crates),
    );

    let github_but_no_ci = filter_crates(crates, Category::GithubNoCi);
    proof {
        crates@.lemma_filter_len(category_pred(Category::GithubNoCi));
    }
    out.push(
        render_list_page(
            String::from_str("github-but-no-ci"),
            String::from_str("On GitHub but has no CI"),
            &github_but_no_ci,
        ),
    );

    let gitlab_but_no_ci = filter_crates(crates, Category::GitlabNoCi);
    proof {
        crates@.lemma_filter_len(category_pred(Category::GitlabNoCi));
    }
    out.push(
        render_list_page(
            String::from_str("gitlab-but-no-ci"),
            String::from_str("On GitLab but has no CI"),
            &gitlab_but_no_ci,
        ),
    );

    let home_page_but_no_repo = filter_crates(crates, Category::HasHomepageNoRepo);
    proof {
        crates@.lemma_filter_len(category_pred(Category::HasHomepageNoRepo));
    }
    out.push(
        render_list_page(
            String::from_str("has-homepage-but-no-repo"),
            String::from_str("Has homepage, but no repository"),
            &home_page_but_no_repo,
        ),
    );

    let no_homepage_no_repo_crates = filter_crates(crates, Category::NoHomepageNoRepo);
    proof {
        crates@.lemma_filter_len(category_pred(Category::NoHomepageNoRepo));
    }
    out.push(
        render_list_page(
            String::from_str("no-homepage-no-repo"),
            String::from_str("No repository, no homepage"),
            &no_homepage_no_repo_crates,
        ),
    );

    let crates_without_owner_name = filter_crates(crates, Category::NoOwnerName);
    out.push(
        render_list_page(
            String::from_str("crates-without-owner-name"),
            String::from_str("Crates without owner name"),
            &crates_without_owner_name,
        ),
    );

    let crates_without_owner = filter_crates(crates, Category::NoOwner);
    out.push(
        render_list_page(
            String::from_str("crates-without-owner"),
            String::from_str("Crates without owner"),
            &crates_without_owner,
        ),
    );

    out.push(
        render_stats_page(
            crates.len(),
            repos.len(),
            home_page_but_no_repo.len(),
            no_homepage_no_repo_crates.len(),
            github_but_no_ci.len(),
            gitlab_but_no_ci.len(),
        ),
    );

    out
}

} // verus!
