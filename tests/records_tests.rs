use gitflow::models::TagInfo;
use gitflow::records::{
    branch_info, commit_info, current_first, delta_label, diff_stat_entry, file_history_entry,
    history_limit, reflog_entry, remote_branch_info, sort_tags, status_entries, tag_info, DeltaKind,
    StatusFlags, Tagger, FIRST_DATED_SECOND, LAST_DATED_SECOND,
};

const SHA: &str = "0123456789abcdef0123456789abcdef01234567";

fn flags(i: (bool, bool, bool), w: (bool, bool, bool)) -> StatusFlags {
    StatusFlags {
        index_new: i.0,
        index_modified: i.1,
        index_deleted: i.2,
        wt_new: w.0,
        wt_modified: w.1,
        wt_deleted: w.2,
    }
}

#[test]
fn status_entries_split_staged_and_unstaged() {
    let both = status_entries("a.txt".to_string(), flags((false, true, false), (false, false, true)));
    assert_eq!(both.len(), 2);
    assert_eq!((both[0].status.as_str(), both[0].staged), ("modified", true));
    assert_eq!((both[1].status.as_str(), both[1].staged), ("deleted", false));
    assert_eq!(both[1].path, "a.txt");

    let untracked = status_entries("n".to_string(), flags((false, false, false), (true, false, false)));
    assert_eq!(untracked.len(), 1);
    assert_eq!((untracked[0].status.as_str(), untracked[0].staged), ("untracked", false));

    let added = status_entries("n".to_string(), flags((true, true, false), (false, false, false)));
    assert_eq!(added[0].status, "untracked");
    assert!(status_entries("c".to_string(), flags((false, false, false), (false, false, false))).is_empty());
}

#[test]
fn commit_info_formats_the_date() {
    let c = commit_info(SHA.to_string(), None, Some("a@b.c"), Some("msg\nbody"), 0, vec!["p".to_string()])
        .unwrap();
    assert_eq!(c.author, "Unknown");
    assert_eq!(c.email, "a@b.c");
    assert_eq!(c.message, "msg\nbody");
    assert_eq!(c.date, "1970-01-01 00:00:00");
    assert_eq!(c.parent_ids, vec!["p".to_string()]);
    let d = commit_info(SHA.to_string(), Some("김철수"), None, None, 1_700_000_000, vec![]).unwrap();
    assert_eq!(d.date, "2023-11-14 22:13:20");
    assert_eq!(d.email, "");
    assert!(commit_info(SHA.to_string(), None, None, None, i64::MAX, vec![]).is_none());
    let last = commit_info(SHA.to_string(), None, None, None, LAST_DATED_SECOND, vec![]).unwrap();
    assert_eq!(last.date, "+262142-12-31 23:59:59");
    assert!(commit_info(SHA.to_string(), None, None, None, LAST_DATED_SECOND + 1, vec![]).is_none());
    assert!(commit_info(SHA.to_string(), None, None, None, FIRST_DATED_SECOND, vec![]).is_some());
    assert!(commit_info(SHA.to_string(), None, None, None, FIRST_DATED_SECOND - 1, vec![]).is_none());
}

#[test]
fn branch_records_are_abbreviated() {
    let b = branch_info("main", true, SHA, Some("First line\nSecond"), None, 42);
    assert_eq!(b.name, "main");
    assert_eq!(b.commit_sha, "0123456");
    assert_eq!(b.commit_message, "First line");
    assert_eq!(b.author, "Unknown");
    assert!(b.is_current && !b.is_remote);
    let e = branch_info("x", false, SHA, None, Some("me"), 1);
    assert_eq!(e.commit_message, "");
}

#[test]
fn current_branch_comes_first_and_others_keep_order() {
    let mk = |n: &str, cur: bool| branch_info(n, cur, SHA, None, None, 0);
    let v = vec![mk("a", false), mk("b", false), mk("main", true), mk("c", false)];
    let names: Vec<String> = current_first(v).into_iter().map(|b| b.name).collect();
    assert_eq!(names, vec!["main", "a", "b", "c"]);
}

#[test]
fn remote_branches_are_filtered_by_remote() {
    let r = remote_branch_info("origin/feature/x", "origin", SHA, Some("msg")).unwrap();
    assert_eq!(r.name, "feature/x");
    assert_eq!(r.full_name, "origin/feature/x");
    assert_eq!(r.commit_sha, "0123456");
    assert!(!r.is_head);
    assert!(remote_branch_info("origin/HEAD", "origin", SHA, None).unwrap().is_head);
    assert!(remote_branch_info("upstream/main", "origin", SHA, None).is_none());
    assert!(remote_branch_info("originx/main", "origin", SHA, None).is_none());
}

#[test]
fn tag_records_and_order() {
    let light = tag_info("v1".to_string(), "t1".to_string(), None, None);
    assert!(light.tagger.is_none() && light.date.is_none());
    let ann = tag_info(
        "v2".to_string(),
        "t2".to_string(),
        Some("release".to_string()),
        Some(Tagger { name: Some("Kim"), email: None, when: 100 }),
    );
    assert_eq!(ann.tagger.as_deref(), Some("Kim <>"));
    assert_eq!(ann.date, Some(100));

    let t = |n: &str, d: Option<i64>| TagInfo {
        name: n.to_string(),
        target: String::new(),
        message: None,
        tagger: None,
        date: d,
    };
    let sorted = sort_tags(vec![t("b", None), t("old", Some(1)), t("a", None), t("new", Some(9))]);
    let names: Vec<&str> = sorted.iter().map(|x| x.name.as_str()).collect();
    assert_eq!(names, vec!["a", "b", "new", "old"]);

    let same_time = sort_tags(vec![t("v2", Some(5)), t("v1", Some(5)), t("v3", Some(6))]);
    let names: Vec<&str> = same_time.iter().map(|x| x.name.as_str()).collect();
    assert_eq!(names, vec!["v3", "v2", "v1"]);
    let by_name = sort_tags(vec![t("b", None), t("B", None), t("가", None), t("a", None)]);
    let names: Vec<&str> = by_name.iter().map(|x| x.name.as_str()).collect();
    assert_eq!(names, vec!["B", "a", "b", "가"]);
}

#[test]
fn history_and_reflog_records() {
    assert_eq!(history_limit(None), 100);
    assert_eq!(history_limit(Some(5)), 5);
    assert_eq!(delta_label(DeltaKind::Renamed), "renamed");
    assert_eq!(delta_label(DeltaKind::Other), "unknown");
    let h = file_history_entry(SHA.to_string(), None, Some("Lee"), None, 7, DeltaKind::Renamed, Some("old.txt".to_string()));
    assert_eq!(h.message, "No message");
    assert_eq!(h.author, "Lee <unknown@example.com>");
    assert_eq!(h.changes, "renamed");
    assert_eq!(h.old_path.as_deref(), Some("old.txt"));
    let m = file_history_entry(SHA.to_string(), Some("m"), None, Some("e@x"), 7, DeltaKind::Modified, Some("old.txt".to_string()));
    assert_eq!(m.author, "Unknown <e@x>");
    assert!(m.old_path.is_none());

    let r = reflog_entry(3, "a".to_string(), "b".to_string(), Some("commit: x"), None, None, 9);
    assert_eq!(r.committer, "Unknown <unknown@example.com>");
    assert_eq!(r.message, "commit: x");
    assert_eq!((r.index, r.timestamp), (3, 9));
}

#[test]
fn diff_stat_entries_start_at_zero() {
    let s = diff_stat_entry("docs/a.md", true);
    assert_eq!(s.file_path, "docs/a.md");
    assert_eq!((s.additions, s.deletions, s.is_binary), (0, 0, true));
}
