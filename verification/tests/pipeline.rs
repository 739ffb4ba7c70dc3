use rust_digger::owners::group_crates_by_owner;
use rust_digger::pages::{
    cut, filter_crates, generate_crate_pages, generate_pages, percentage,
    render_list_crates_by_repo, render_list_of_repos, render_list_page, render_static_pages,
    Category, RenderRequest,
};
use rust_digger::predicates::{
    has_homepage_no_repo, missing_owner, missing_owner_name, no_homepage_no_repo,
    on_github_but_no_ci, on_gitlab_but_no_ci,
};
use rust_digger::repos::collect_repos;
use rust_digger::strutil::{lowercase, str_leq};
use rust_digger::url::get_owner_and_repo;
use rust_digger::userpages::{
    generate_list_of_users, generate_user_pages, sort_crates_by_updated_desc, sort_users_by_name,
};
use rust_digger::{Crate, CrateDetails, User, PAGE_SIZE};

fn mk_crate(id: &str, name: &str, owner_id: &str, homepage: &str, repository: &str) -> Crate {
    Crate {
        id: id.to_string(),
        name: name.to_string(),
        owner_id: owner_id.to_string(),
        owner_name: String::new(),
        owner_gh_login: String::new(),
        homepage: homepage.to_string(),
        repository: repository.to_string(),
        updated_at: 0,
        details: CrateDetails { has_github_action: false, has_gitlab_pipeline: false },
    }
}

fn mk_user(id: &str, name: &str, login: &str) -> User {
    User { id: id.to_string(), name: name.to_string(), gh_login: login.to_string(), count: 0 }
}

#[test]
fn parses_plain_github_url() {
    let (host, owner, repo) = get_owner_and_repo("https://github.com/foo/bar");
    assert_eq!(host, "github");
    assert_eq!(owner, "foo");
    assert_eq!(repo, "bar");
}

#[test]
fn parse_normalizes_host_case_and_git_suffix() {
    let (host, owner, repo) = get_owner_and_repo("https://GitHub.COM/Foo/Bar.git");
    assert_eq!(host, "github");
    assert_eq!(owner, "Foo");
    assert_eq!(repo, "Bar");
}

#[test]
fn parse_ignores_trailing_path() {
    let (host, owner, repo) = get_owner_and_repo("https://gitlab.com/owner/name/tree/main/");
    assert_eq!(host, "gitlab");
    assert_eq!(owner, "owner");
    assert_eq!(repo, "name");
}

#[test]
fn parse_rejects_malformed_urls() {
    assert_eq!(get_owner_and_repo(""), (String::new(), String::new(), String::new()));
    assert_eq!(get_owner_and_repo("not a url"), (String::new(), String::new(), String::new()));
    assert_eq!(
        get_owner_and_repo("https://github.com/"),
        (String::new(), String::new(), String::new())
    );
}

#[test]
fn predicate_no_homepage_no_repo() {
    let c = mk_crate("1", "a", "", "", "");
    assert!(no_homepage_no_repo(&c));
    assert!(!has_homepage_no_repo(&c));
}

#[test]
fn predicate_has_homepage_no_repo() {
    let c = mk_crate("1", "a", "", "https://example.org", "");
    assert!(!no_homepage_no_repo(&c));
    assert!(has_homepage_no_repo(&c));
}

#[test]
fn predicate_owner_fields() {
    let mut c = mk_crate("1", "a", "", "", "");
    assert!(missing_owner_name(&c));
    assert!(missing_owner(&c));
    c.owner_gh_login = "someone".to_string();
    assert!(missing_owner_name(&c));
    assert!(!missing_owner(&c));
    c.owner_name = "Some One".to_string();
    assert!(!missing_owner_name(&c));
}

// A crate on github without CI belongs to the github category; with the
// flag set it does not.
#[test]
fn github_ci_category_follows_flag() {
    let mut c = mk_crate("1", "a", "", "", "https://github.com/foo/bar");
    assert!(on_github_but_no_ci(&c));
    c.details.has_github_action = true;
    assert!(!on_github_but_no_ci(&c));
}

#[test]
fn gitlab_ci_category_follows_flag() {
    let mut c = mk_crate("1", "a", "", "", "https://gitlab.com/foo/bar");
    assert!(on_gitlab_but_no_ci(&c));
    c.details.has_gitlab_pipeline = true;
    assert!(!on_gitlab_but_no_ci(&c));
}

#[test]
fn github_category_needs_github_host() {
    let c = mk_crate("1", "a", "", "", "https://gitlab.com/foo/bar");
    assert!(!on_github_but_no_ci(&c));
    let c2 = mk_crate("2", "b", "", "", "");
    assert!(!on_github_but_no_ci(&c2));
}

// An empty crate belongs to exactly one homepage/repository category.
#[test]
fn empty_crate_only_in_no_homepage_no_repo() {
    let crates = vec![mk_crate("1", "a", "", "", "")];
    let none = filter_crates(&crates, Category::NoHomepageNoRepo);
    let homepage = filter_crates(&crates, Category::HasHomepageNoRepo);
    let github = filter_crates(&crates, Category::GithubNoCi);
    let gitlab = filter_crates(&crates, Category::GitlabNoCi);
    assert_eq!(none.len(), 1);
    assert_eq!(homepage.len(), 0);
    assert_eq!(github.len(), 0);
    assert_eq!(gitlab.len(), 0);
}

// Repository URLs that differ only in a trailing slash or in host case
// resolve to the same repository.
#[test]
fn trailing_slash_and_case_group_together() {
    let crates = vec![
        mk_crate("1", "a", "", "", "https://github.com/foo/bar"),
        mk_crate("2", "b", "", "", "https://github.com/foo/bar/"),
        mk_crate("3", "c", "", "", "https://GitHub.com/foo/bar"),
    ];
    let repos = collect_repos(&crates);
    assert_eq!(repos.len(), 1);
    assert_eq!(repos[0].host, "github");
    assert_eq!(repos[0].owner, "foo");
    assert_eq!(repos[0].repo, "bar");
    assert_eq!(repos[0].name, "github-foo-bar");
    assert_eq!(repos[0].display, "github/foo/bar");
    assert_eq!(repos[0].crates.len(), 3);
}

#[test]
fn repos_in_first_seen_order_and_unparseable_skipped() {
    let crates = vec![
        mk_crate("1", "a", "", "", "https://gitlab.com/x/y"),
        mk_crate("2", "b", "", "", "not a url"),
        mk_crate("3", "c", "", "", "https://github.com/foo/bar"),
        mk_crate("4", "d", "", "", "https://gitlab.com/x/y"),
    ];
    let repos = collect_repos(&crates);
    assert_eq!(repos.len(), 2);
    assert_eq!(repos[0].name, "gitlab-x-y");
    assert_eq!(repos[1].name, "github-foo-bar");
    assert_eq!(repos[0].crates.len(), 2);
    assert_eq!(repos[0].crates[0].id, "1");
    assert_eq!(repos[0].crates[1].id, "4");
}

#[test]
fn owner_grouping_keeps_input_order_and_skips_unowned() {
    let crates = vec![
        mk_crate("10", "a", "u1", "", ""),
        mk_crate("11", "b", "", "", ""),
        mk_crate("12", "c", "u2", "", ""),
        mk_crate("13", "d", "u1", "", ""),
    ];
    let by_owner = group_crates_by_owner(&crates);
    assert_eq!(by_owner.entries.len(), 2);
    assert_eq!(by_owner.entries[0].owner_id, "u1");
    assert_eq!(by_owner.entries[0].crate_ids, vec!["10".to_string(), "13".to_string()]);
    assert_eq!(by_owner.entries[1].owner_id, "u2");
    assert_eq!(by_owner.entries[1].crate_ids, vec!["12".to_string()]);
}

// Pagination: the page holds min(N, len) records, the first ones in order.
#[test]
fn cut_takes_min_of_page_size_and_length() {
    let crates: Vec<Crate> =
        (0..5).map(|i| mk_crate(&i.to_string(), "x", "", "", "")).collect();
    assert_eq!(cut(&crates, 0).len(), 0);
    assert_eq!(cut(&crates, 3).len(), 3);
    assert_eq!(cut(&crates, 5).len(), 5);
    assert_eq!(cut(&crates, 9).len(), 5);
    let first = cut(&crates, 2);
    assert_eq!(first[0].id, "0");
    assert_eq!(first[1].id, "1");
}

// The share of an empty total is 0, not an error.
#[test]
fn percentage_of_zero_total_is_zero() {
    assert_eq!(percentage(0, 0), 0);
}

#[test]
fn percentage_exact_values() {
    assert_eq!(percentage(1, 3), 3333);
    assert_eq!(percentage(1, 2), 5000);
    assert_eq!(percentage(2, 2), 10000);
    assert_eq!(percentage(0, 7), 0);
}

#[test]
fn list_page_paginates_and_keeps_total() {
    let crates: Vec<Crate> =
        (0..150).map(|i| mk_crate(&i.to_string(), "x", "", "", "")).collect();
    match render_list_page("index".to_string(), "Rust Digger".to_string(), &crates) {
        RenderRequest::ListPage { destination, title, total, items } => {
            assert_eq!(destination, "index");
            assert_eq!(title, "Rust Digger");
            assert_eq!(total, 150);
            assert_eq!(items.len(), PAGE_SIZE);
        }
        _ => panic!("expected a list page"),
    }
}

#[test]
fn static_pages_manifest() {
    let pages = render_static_pages();
    assert_eq!(pages.len(), 3);
    match &pages[0] {
        RenderRequest::StaticPage { destination, title } => {
            assert_eq!(destination, "about");
            assert_eq!(title, "About Rust Digger");
        }
        _ => panic!("expected a static page"),
    }
}

#[test]
fn crate_pages_one_per_crate() {
    let crates = vec![mk_crate("1", "serde", "", "", ""), mk_crate("2", "rand", "", "", "")];
    let pages = generate_crate_pages(&crates);
    assert_eq!(pages.len(), 2);
    match &pages[0] {
        RenderRequest::CratePage { destination, title, krate } => {
            assert_eq!(destination, "crates/serde");
            assert_eq!(title, "serde");
            assert_eq!(krate.id, "1");
        }
        _ => panic!("expected a crate page"),
    }
}

#[test]
fn repo_pages_and_index() {
    let crates = vec![mk_crate("1", "a", "", "", "https://github.com/foo/bar")];
    let repos = collect_repos(&crates);
    let pages = render_list_crates_by_repo(&repos);
    assert_eq!(pages.len(), 1);
    match &pages[0] {
        RenderRequest::ListPage { destination, title, total, items } => {
            assert_eq!(destination, "vcs/github-foo-bar");
            assert_eq!(title, "Crates in github/foo/bar");
            assert_eq!(*total, 1);
            assert_eq!(items.len(), 1);
        }
        _ => panic!("expected a list page"),
    }
    match render_list_of_repos(&repos) {
        RenderRequest::RepoIndexPage { destination, title, repos: rs } => {
            assert_eq!(destination, "vcs/index");
            assert_eq!(title, "Repositories");
            assert_eq!(rs.len(), 1);
        }
        _ => panic!("expected the repository index"),
    }
}

#[test]
fn generate_pages_full_manifest() {
    let crates = vec![
        mk_crate("1", "a", "", "", ""),
        mk_crate("2", "b", "", "https://example.org", ""),
        mk_crate("3", "c", "", "", "https://github.com/foo/bar"),
        mk_crate("4", "d", "", "", "https://gitlab.com/x/y"),
    ];
    let pages = generate_pages(&crates);
    // 2 repositories + the index page + the full listing + 6 category
    // pages + the statistics page.
    assert_eq!(pages.len(), 2 + 9);
    match &pages[0] {
        RenderRequest::ListPage { destination, .. } => {
            assert_eq!(destination, "vcs/github-foo-bar");
        }
        _ => panic!("expected a repository page"),
    }
    match &pages[1] {
        RenderRequest::ListPage { destination, .. } => {
            assert_eq!(destination, "vcs/gitlab-x-y");
        }
        _ => panic!("expected a repository page"),
    }
    match &pages[3] {
        RenderRequest::ListPage { destination, total, .. } => {
            assert_eq!(destination, "index");
            assert_eq!(*total, 4);
        }
        _ => panic!("expected the full listing"),
    }
    match &pages[4] {
        RenderRequest::ListPage { destination, total, items, .. } => {
            assert_eq!(destination, "github-but-no-ci");
            assert_eq!(*total, 1);
            assert_eq!(items[0].id, "3");
        }
        _ => panic!("expected the github category page"),
    }
    match &pages[10] {
        RenderRequest::StatsPage { destination, stats, .. } => {
            assert_eq!(destination, "stats");
            assert_eq!(stats.total, 4);
            assert_eq!(stats.repos_total, 2);
            assert_eq!(stats.no_homepage_no_repo_crates.count, 1);
            assert_eq!(stats.no_homepage_no_repo_crates.percentage, 2500);
            assert_eq!(stats.home_page_but_no_repo.count, 1);
            assert_eq!(stats.github_but_no_ci.count, 1);
            assert_eq!(stats.gitlab_but_no_ci.count, 1);
        }
        _ => panic!("expected the statistics page"),
    }
}

#[test]
fn sort_crates_newest_first() {
    let mut a = mk_crate("1", "a", "", "", "");
    a.updated_at = 10;
    let mut b = mk_crate("2", "b", "", "", "");
    b.updated_at = 30;
    let mut c = mk_crate("3", "c", "", "", "");
    c.updated_at = 20;
    let sorted = sort_crates_by_updated_desc(vec![a, b, c]);
    let ids: Vec<&str> = sorted.iter().map(|k| k.id.as_str()).collect();
    assert_eq!(ids, vec!["2", "3", "1"]);
}

#[test]
fn sort_crates_keeps_input_order_on_equal_timestamps() {
    let mut a = mk_crate("1", "a", "", "", "");
    a.updated_at = 50;
    let mut b = mk_crate("2", "b", "", "", "");
    b.updated_at = 50;
    let mut c = mk_crate("3", "c", "", "", "");
    c.updated_at = 99;
    let sorted = sort_crates_by_updated_desc(vec![a, b, c]);
    let ids: Vec<&str> = sorted.iter().map(|k| k.id.as_str()).collect();
    assert_eq!(ids, vec!["3", "1", "2"]);
}

#[test]
fn sort_users_keeps_input_order_on_equal_names() {
    let users = vec![mk_user("1", "same", "x"), mk_user("2", "same", "y"), mk_user("3", "abc", "z")];
    let sorted = sort_users_by_name(users);
    let ids: Vec<&str> = sorted.iter().map(|u| u.id.as_str()).collect();
    assert_eq!(ids, vec!["3", "1", "2"]);
}

#[test]
fn sort_users_by_name_ascending() {
    let users = vec![mk_user("1", "carol", "c"), mk_user("2", "alice", "a"), mk_user("3", "bob", "b")];
    let sorted = sort_users_by_name(users);
    let names: Vec<&str> = sorted.iter().map(|u| u.name.as_str()).collect();
    assert_eq!(names, vec!["alice", "bob", "carol"]);
}

// Two crates of one owner appear on that owner's page, newest first.
#[test]
fn user_page_lists_both_crates_sorted() {
    let mut c1 = mk_crate("10", "older", "u1", "", "");
    c1.updated_at = 100;
    let mut c2 = mk_crate("11", "newer", "u1", "", "");
    c2.updated_at = 200;
    let crates = vec![c1, c2];
    let by_owner = group_crates_by_owner(&crates);
    let users = vec![mk_user("u1", "User One", "UserOne")];
    let pages = generate_user_pages(&crates, users, &by_owner).unwrap();
    assert_eq!(pages.len(), 2);
    match &pages[0] {
        RenderRequest::UserPage { destination, title, user, items } => {
            assert_eq!(destination, "users/userone");
            assert_eq!(title, "User One");
            assert_eq!(user.count, 2);
            assert_eq!(items.len(), 2);
            assert_eq!(items[0].id, "11");
            assert_eq!(items[1].id, "10");
        }
        _ => panic!("expected a user page"),
    }
}

// A user without crates gets no page and is not on the users index.
#[test]
fn user_without_crates_not_listed() {
    let crates = vec![mk_crate("10", "a", "u1", "", "")];
    let by_owner = group_crates_by_owner(&crates);
    let users = vec![mk_user("u1", "Owner", "owner"), mk_user("u2", "Idle", "idle")];
    let pages = generate_user_pages(&crates, users, &by_owner).unwrap();
    // one user page plus the index
    assert_eq!(pages.len(), 2);
    match &pages[1] {
        RenderRequest::UserIndexPage { destination, title, users } => {
            assert_eq!(destination, "users/index");
            assert_eq!(title, "Users");
            assert_eq!(users.len(), 1);
            assert_eq!(users[0].name, "Owner");
            assert!(users[0].count > 0);
        }
        _ => panic!("expected the users index"),
    }
}

#[test]
fn users_index_sorted_by_name() {
    let crates = vec![mk_crate("1", "a", "u1", "", ""), mk_crate("2", "b", "u2", "", "")];
    let by_owner = group_crates_by_owner(&crates);
    let users = vec![mk_user("u1", "zoe", "z"), mk_user("u2", "adam", "a")];
    let pages = generate_user_pages(&crates, users, &by_owner).unwrap();
    match &pages[2] {
        RenderRequest::UserIndexPage { users, .. } => {
            assert_eq!(users[0].name, "adam");
            assert_eq!(users[1].name, "zoe");
        }
        _ => panic!("expected the users index"),
    }
}

// An owner-index id that no crate carries aborts the run.
#[test]
fn unknown_crate_id_is_fatal() {
    let crates = vec![mk_crate("1", "a", "u1", "", "")];
    let mut by_owner = group_crates_by_owner(&crates);
    by_owner.entries[0].crate_ids.push("missing".to_string());
    let users = vec![mk_user("u1", "Owner", "owner")];
    let r = generate_user_pages(&crates, users, &by_owner);
    assert!(r.is_err());
}

#[test]
fn list_of_users_copies_input() {
    let users = vec![mk_user("u1", "A", "a")];
    match generate_list_of_users(&users) {
        RenderRequest::UserIndexPage { users: us, .. } => {
            assert_eq!(us.len(), 1);
            assert_eq!(us[0].id, "u1");
        }
        _ => panic!("expected the users index"),
    }
}

#[test]
fn lowercase_and_ordering_helpers() {
    assert_eq!(lowercase("GitHub.COM"), "github.com");
    assert_eq!(lowercase("abc-123"), "abc-123");
    assert!(str_leq("alice", "bob"));
    assert!(str_leq("a", "ab"));
    assert!(!str_leq("b", "ab"));
    assert!(str_leq("same", "same"));
}
