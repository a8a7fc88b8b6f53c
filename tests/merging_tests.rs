use gitflow::merging::{
    branch_ref_name, cherry_pick_message, cherry_pick_outcome, conflict_path, merge_commit_message,
    parse_reset_kind, parse_resolution, plan_merge, plan_pull, push_refspec, rebase_info,
    rebase_outcome, remote_branch_name, revert_message, revert_outcome, tag_refspec, MergeAction,
    PullAction, ResetKind, Resolution, conflict_side_index, record_rebase_step, RebaseStep,
};

#[test]
fn merge_plan_prefers_fast_forward_unless_refused() {
    assert_eq!(plan_merge(true, true, false, false), Ok(MergeAction::FastForward));
    assert_eq!(plan_merge(true, true, false, true), Ok(MergeAction::Merge));
    assert_eq!(plan_merge(false, true, false, false), Ok(MergeAction::Merge));
    assert_eq!(plan_merge(false, false, true, false), Ok(MergeAction::UpToDate));
    assert_eq!(
        plan_merge(true, false, false, true),
        Err("Cannot merge: unhandled merge analysis result".to_string())
    );
    assert_eq!(merge_commit_message("feature"), "Merge branch 'feature'");
}

#[test]
fn pull_plan_needs_up_to_date_or_fast_forward() {
    assert_eq!(plan_pull(true, true), Ok(PullAction::UpToDate));
    assert_eq!(plan_pull(false, true), Ok(PullAction::FastForward));
    assert_eq!(plan_pull(false, false), Err("Cannot pull: merge or rebase required".to_string()));
}

#[test]
fn ref_names_and_refspecs() {
    assert_eq!(remote_branch_name("origin", "main"), "origin/main");
    assert_eq!(branch_ref_name("기능/테스트"), "refs/heads/기능/테스트");
    assert_eq!(push_refspec("main", false), "refs/heads/main:refs/heads/main");
    assert_eq!(push_refspec("main", true), "+refs/heads/main:refs/heads/main");
    assert_eq!(tag_refspec("v1.0"), "refs/tags/v1.0:refs/tags/v1.0");
}

#[test]
fn resolutions_are_read() {
    assert!(matches!(parse_resolution("ours", None), Ok(Resolution::Ours)));
    assert!(matches!(parse_resolution("theirs", Some("x".to_string())), Ok(Resolution::Theirs)));
    match parse_resolution("manual", Some("merged text".to_string())) {
        Ok(Resolution::Manual(c)) => assert_eq!(c, "merged text"),
        other => panic!("unexpected {:?}", other),
    }
    assert_eq!(
        parse_resolution("manual", None).unwrap_err(),
        "수동 해결 시 콘텐츠가 필요합니다"
    );
    assert_eq!(parse_resolution("both", None).unwrap_err(), "알 수 없는 해결 방법: both");
}

#[test]
fn reset_kinds_are_read() {
    assert_eq!(parse_reset_kind("soft"), Ok(ResetKind::Soft));
    assert_eq!(parse_reset_kind("mixed"), Ok(ResetKind::Mixed));
    assert_eq!(parse_reset_kind("hard"), Ok(ResetKind::Hard));
    assert_eq!(parse_reset_kind("Hard"), Err("알 수 없는 리셋 타입: Hard".to_string()));
}

#[test]
fn conflict_path_prefers_our_side() {
    let s = |x: &str| Some(x.to_string());
    assert_eq!(conflict_path(s("a"), s("b"), s("c")), s("a"));
    assert_eq!(conflict_path(None, s("b"), s("c")), s("b"));
    assert_eq!(conflict_path(None, None, s("c")), s("c"));
    assert_eq!(conflict_path(None, None, None), None);
}

#[test]
fn commit_messages_of_cherry_pick_and_revert() {
    assert_eq!(cherry_pick_message(Some("Fix bug")), "Cherry-pick: Fix bug");
    assert_eq!(cherry_pick_message(None), "Cherry-pick: No message");
    assert_eq!(
        revert_message(Some("Add x"), "abc123"),
        "Revert \"Add x\"\n\nThis reverts commit abc123."
    );
    assert_eq!(revert_message(None, "d"), "Revert \"No message\"\n\nThis reverts commit d.");
}

#[test]
fn outcomes_report_conflicts() {
    let ok = cherry_pick_outcome(false, vec![]);
    assert!(ok.success);
    assert_eq!(ok.message, "체리픽이 성공적으로 완료되었습니다");
    let bad = cherry_pick_outcome(true, vec!["a.txt".to_string(), "b.txt".to_string()]);
    assert!(!bad.success);
    assert_eq!(bad.conflicts, vec!["a.txt".to_string(), "b.txt".to_string()]);
    assert_eq!(bad.message, "체리픽 중 충돌이 발생했습니다: 2 개 파일");

    let many: Vec<String> = (0..12).map(|i| format!("f{}", i)).collect();
    let r = revert_outcome(true, many);
    assert!(!r.success);
    assert_eq!(r.message, "리버트 중 충돌이 발생했습니다: 12 개 파일");
    assert_eq!(revert_outcome(false, vec![]).message, "리버트가 성공적으로 완료되었습니다");

    let rb = rebase_outcome(vec!["커밋 중 오류".to_string()]);
    assert!(!rb.success);
    assert_eq!(rb.message, "Rebase 중 충돌이 발생했습니다");
    assert!(rebase_outcome(vec![]).success);
}

#[test]
fn rebase_info_reports_progress() {
    let i = rebase_info(Some((2, 5)));
    assert!(i.in_progress);
    assert_eq!((i.current_operation, i.total_operations), (Some(2), Some(5)));
    let n = rebase_info(None);
    assert!(!n.in_progress);
    assert_eq!((n.current_operation, n.total_operations), (None, None));
}

#[test]
fn conflicts_without_our_side_still_fail() {
    let c = cherry_pick_outcome(true, vec![]);
    assert!(!c.success);
    assert_eq!(c.message, "체리픽 중 충돌이 발생했습니다: 0 개 파일");
    let r = revert_outcome(true, vec![]);
    assert!(!r.success);
    assert_eq!(r.message, "리버트 중 충돌이 발생했습니다: 0 개 파일");
}

#[test]
fn rebase_steps_are_recorded() {
    let mut problems = Vec::new();
    assert!(record_rebase_step(&mut problems, RebaseStep::Committed));
    assert!(problems.is_empty());
    assert!(record_rebase_step(&mut problems, RebaseStep::CommitFailed("empty".to_string())));
    assert!(!record_rebase_step(&mut problems, RebaseStep::Failed("conflict".to_string())));
    assert_eq!(problems, vec!["커밋 중 오류: empty".to_string(), "Rebase 작업 실패: conflict".to_string()]);
}

#[test]
fn conflict_side_is_found_by_path() {
    let sides = vec![None, Some("b.txt".to_string()), Some("a.txt".to_string()), Some("a.txt".to_string())];
    assert_eq!(conflict_side_index(&sides, "a.txt"), Ok(2));
    assert_eq!(conflict_side_index(&sides, "b.txt"), Ok(1));
    assert_eq!(conflict_side_index(&sides, "c.txt"), Err("충돌 파일을 찾을 수 없습니다".to_string()));
    assert!(conflict_side_index(&vec![], "a").is_err());
}
