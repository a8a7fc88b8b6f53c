use gitflow::models::RecentRepo;
use gitflow::recent::{keep_most_recent, remember_repo, repo_display_name, sort_by_recency, MAX_RECENT};

fn repo(p: &str, t: i64) -> RecentRepo {
    RecentRepo { path: p.to_string(), name: p.to_string(), last_opened: t }
}

#[test]
fn display_name_is_the_last_component() {
    assert_eq!(repo_display_name("/home/me/projects/gitflow"), "gitflow");
    assert_eq!(repo_display_name("/home/me/projects/gitflow/"), "gitflow");
    assert_eq!(repo_display_name("/"), "Unknown");
    assert_eq!(repo_display_name("/tmp/.."), "Unknown");
    assert_eq!(repo_display_name("C:relative/저장소"), "저장소");
}

#[test]
fn recent_repos_sort_newest_first() {
    let sorted = sort_by_recency(vec![repo("a", 1), repo("b", 3), repo("c", 2)]);
    let paths: Vec<&str> = sorted.iter().map(|r| r.path.as_str()).collect();
    assert_eq!(paths, vec!["b", "c", "a"]);
    assert!(sort_by_recency(vec![]).is_empty());
}

#[test]
fn entries_opened_together_keep_their_order() {
    let sorted = sort_by_recency(vec![repo("a", 5), repo("b", 7), repo("c", 5), repo("d", 7)]);
    let paths: Vec<&str> = sorted.iter().map(|r| r.path.as_str()).collect();
    assert_eq!(paths, vec!["b", "d", "a", "c"]);
}

#[test]
fn remembering_a_repo_replaces_its_old_entry() {
    let list = remember_repo(vec![repo("/x", 1), repo("/y", 2)], "/x".to_string(), 10);
    assert_eq!(list.len(), 2);
    assert_eq!(list[0].path, "/y");
    assert_eq!(list[1].path, "/x");
    assert_eq!(list[1].name, "x");
    assert_eq!(list[1].last_opened, 10);
}

#[test]
fn the_list_keeps_the_twenty_newest() {
    let old: Vec<RecentRepo> = (0..20).map(|i| repo(&format!("/r{}", i), i as i64)).collect();
    let list = remember_repo(old, "/new".to_string(), 100);
    assert_eq!(list.len(), MAX_RECENT);
    assert_eq!(list[0].path, "/new");
    assert_eq!(list[19].path, "/r1");
    assert!(list.iter().all(|r| r.path != "/r0"));

    let short = keep_most_recent(vec![repo("a", 1), repo("b", 5)]);
    assert_eq!(short[0].path, "a");
}
