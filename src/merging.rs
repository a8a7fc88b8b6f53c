//! The decisions around merging, pulling, cherry-picking, reverting,
//! rebasing, resetting and resolving conflicts: which action follows from
//! the engine's analysis, which texts the new commits carry, and how the
//! outcome is reported.

use vstd::prelude::*;
use crate::models::{CherryPickResult, RebaseInfo, RebaseResult, RevertResult};
use crate::text::{decimal, decimal_of};

verus! {

/// What a merge of a branch into HEAD does.
#[derive(Debug, Clone, Copy, PartialEq, Eq, Structural)]
pub enum MergeAction {
    /// Move HEAD to the branch's commit.
    FastForward,
    /// Merge the trees and record a merge commit.
    Merge,
    /// Nothing to do.
    UpToDate,
}

/// What a pull does once the remote branch has been fetched.
#[derive(Debug, Clone, Copy, PartialEq, Eq, Structural)]
pub enum PullAction {
    FastForward,
    UpToDate,
}

/// How a conflicted file is resolved.
#[derive(Debug, Clone)]
pub enum Resolution {
    /// Keep our side.
    Ours,
    /// Keep their side.
    Theirs,
    /// Write the given content.
    Manual(String),
}

/// The kind of a reset.
#[derive(Debug, Clone, Copy, PartialEq, Eq, Structural)]
pub enum ResetKind {
    Soft,
    Mixed,
    Hard,
}

pub open spec fn merge_plan(
    fast_forward: bool,
    normal: bool,
    up_to_date: bool,
    no_fast_forward: bool,
) -> Option<MergeAction> {
    if fast_forward && !no_fast_forward {
        Some(MergeAction::FastForward)
    } else if normal {
        Some(MergeAction::Merge)
    } else if up_to_date {
        Some(MergeAction::UpToDate)
    } else {
        None
    }
}

/// Chooses the merge action from the engine's merge analysis: a fast-forward
/// where one is possible and not refused, else a real merge where the
/// analysis calls for one, else nothing where HEAD is up to date. Any other
/// analysis is an error.
pub fn plan_merge(fast_forward: bool, normal: bool, up_to_date: bool, no_fast_forward: bool) -> (r:
    Result<MergeAction, String>)
    ensures
        match merge_plan(fast_forward, normal, up_to_date, no_fast_forward) {
            Some(a) => r == Ok::<MergeAction, String>(a),
            None => r is Err && r->Err_0@ == "Cannot merge: unhandled merge analysis result"@,
        },
{
    if fast_forward && !no_fast_forward {
        Ok(MergeAction::FastForward)
    } else if normal {
        Ok(MergeAction::Merge)
    } else if up_to_date {
        Ok(MergeAction::UpToDate)
    } else {
        Err(String::from_str("Cannot merge: unhandled merge analysis result"))
    }
}

/// The message of the merge commit that merges `branch`.
pub fn merge_commit_message(branch: &str) -> (r: String)
    ensures
        r@ == "Merge branch '"@ + branch@ + "'"@,
{
    let mut s = String::from_str("Merge branch '");
    s.append(branch);
    s.append("'");
    s
}

/// Chooses what a pull does from the engine's merge analysis: nothing when
/// up to date, a fast-forward when possible; anything else needs a merge or
/// a rebase, which a pull does not do.
pub fn plan_pull(up_to_date: bool, fast_forward: bool) -> (r: Result<PullAction, String>)
    ensures
        up_to_date ==> r == Ok::<PullAction, String>(PullAction::UpToDate),
        !up_to_date && fast_forward ==> r == Ok::<PullAction, String>(PullAction::FastForward),
        !up_to_date && !fast_forward ==> r is Err && r->Err_0@
            == "Cannot pull: merge or rebase required"@,
{
    if up_to_date {
        Ok(PullAction::UpToDate)
    } else if fast_forward {
        Ok(PullAction::FastForward)
    } else {
        Err(String::from_str("Cannot pull: merge or rebase required"))
    }
}

/// The name of a remote-tracking branch: `remote/branch`.
pub fn remote_branch_name(remote: &str, branch: &str) -> (r: String)
    ensures
        r@ == remote@ + "/"@ + branch@,
{
    let mut s = String::from_str(remote);
    s.append("/");
    s.append(branch);
    s
}

/// The full name of a local branch: `refs/heads/branch`.
pub fn branch_ref_name(branch: &str) -> (r: String)
    ensures
        r@ == "refs/heads/"@ + branch@,
{
    let mut s = String::from_str("refs/heads/");
    s.append(branch);
    s
}

/// The refspec that pushes a local branch to the branch of the same name;
/// a forced push is marked with a leading `+`.
pub fn push_refspec(branch: &str, force: bool) -> (r: String)
    ensures
        r@ == (if force { "+"@ } else { ""@ }) + "refs/heads/"@ + branch@ + ":refs/heads/"@
            + branch@,
{
    let mut s = String::from_str(if force { "+" } else { "" });
    s.append("refs/heads/");
    s.append(branch);
    s.append(":refs/heads/");
    s.append(branch);
    s
}

/// The refspec that pushes a tag to the tag of the same name.
pub fn tag_refspec(tag: &str) -> (r: String)
    ensures
        r@ == "refs/tags/"@ + tag@ + ":refs/tags/"@ + tag@,
{
    let mut s = String::from_str("refs/tags/");
    s.append(tag);
    s.append(":refs/tags/");
    s.append(tag);
    s
}

/// Reads the resolution that the user chose for a conflicted file:
/// "ours", "theirs", or "manual", which needs the content to write.
pub fn parse_resolution(resolution: &str, content: Option<String>) -> (r: Result<Resolution, String>)
    ensures
        resolution@ == "ours"@ ==> r matches Ok(Resolution::Ours),
        resolution@ == "theirs"@ ==> r matches Ok(Resolution::Theirs),
        resolution@ == "manual"@ ==> match content {
            Some(c) => r matches Ok(Resolution::Manual(m)) && m@ == c@,
            None => r is Err && r->Err_0@ == "수동 해결 시 콘텐츠가 필요합니다"@,
        },
        resolution@ != "ours"@ && resolution@ != "theirs"@ && resolution@ != "manual"@ ==> r is Err
            && r->Err_0@ == "알 수 없는 해결 방법: "@ + resolution@,
{
    proof {
        reveal_strlit("ours");
        reveal_strlit("theirs");
        reveal_strlit("manual");
        assert("ours"@[0] != "theirs"@[0] && "ours"@[0] != "manual"@[0] && "theirs"@[0]
            != "manual"@[0]);
        assert("ours"@ != "theirs"@ && "ours"@ != "manual"@ && "theirs"@ != "manual"@);
    }
    let given = String::from_str(resolution);
    if given == String::from_str("ours") {
        Ok(Resolution::Ours)
    } else if given == String::from_str("theirs") {
        Ok(Resolution::Theirs)
    } else if given == String::from_str("manual") {
        match content {
            Some(c) => Ok(Resolution::Manual(c)),
            None => Err(String::from_str("수동 해결 시 콘텐츠가 필요합니다")),
        }
    } else {
        let mut e = String::from_str("알 수 없는 해결 방법: ");
        e.append(resolution);
        Err(e)
    }
}

/// Reads the kind of a reset: "soft", "mixed" or "hard".
pub fn parse_reset_kind(kind: &str) -> (r: Result<ResetKind, String>)
    ensures
        kind@ == "soft"@ ==> r == Ok::<ResetKind, String>(ResetKind::Soft),
        kind@ == "mixed"@ ==> r == Ok::<ResetKind, String>(ResetKind::Mixed),
        kind@ == "hard"@ ==> r == Ok::<ResetKind, String>(ResetKind::Hard),
        kind@ != "soft"@ && kind@ != "mixed"@ && kind@ != "hard"@ ==> r is Err && r->Err_0@
            == "알 수 없는 리셋 타입: "@ + kind@,
{
    proof {
        reveal_strlit("soft");
        reveal_strlit("mixed");
        reveal_strlit("hard");
        assert("soft"@[0] != "mixed"@[0] && "soft"@[0] != "hard"@[0] && "mixed"@[0]
            != "hard"@[0]);
        assert("soft"@ != "mixed"@ && "soft"@ != "hard"@ && "mixed"@ != "hard"@);
    }
    let given = String::from_str(kind);
    if given == String::from_str("soft") {
        Ok(ResetKind::Soft)
    } else if given == String::from_str("mixed") {
        Ok(ResetKind::Mixed)
    } else if given == String::from_str("hard") {
        Ok(ResetKind::Hard)
    } else {
        let mut e = String::from_str("알 수 없는 리셋 타입: ");
        e.append(kind);
        Err(e)
    }
}

/// The path that names a conflict: that of our side, else theirs, else the
/// common ancestor's. A conflict with no side has none.
pub fn conflict_path(ours: Option<String>, theirs: Option<String>, ancestor: Option<String>) -> (r:
    Option<String>)
    ensures
        r == (if ours is Some {
            ours
        } else if theirs is Some {
            theirs
        } else {
            ancestor
        }),
{
    if ours.is_some() {
        ours
    } else if theirs.is_some() {
        theirs
    } else {
        ancestor
    }
}

/// The text of a commit message, or `default` where it has none.
fn message_or(message: Option<&str>, default: &str) -> (r: String)
    ensures
        r@ == match message {
            Some(m) => m@,
            None => default@,
        },
{
    match message {
        Some(m) => String::from_str(m),
        None => String::from_str(default),
    }
}

/// The message of the commit that a cherry-pick records.
pub fn cherry_pick_message(message: Option<&str>) -> (r: String)
    ensures
        r@ == "Cherry-pick: "@ + match message {
            Some(m) => m@,
            None => "No message"@,
        },
{
    let mut s = String::from_str("Cherry-pick: ");
    s.append(message_or(message, "No message").as_str());
    s
}

/// The message of the commit that reverts `sha`, whose message was `message`.
pub fn revert_message(message: Option<&str>, sha: &str) -> (r: String)
    ensures
        r@ == "Revert \""@ + match message {
            Some(m) => m@,
            None => "No message"@,
        } + "\"\n\nThis reverts commit "@ + sha@ + "."@,
{
    let mut s = String::from_str("Revert \"");
    s.append(message_or(message, "No message").as_str());
    s.append("\"\n\nThis reverts commit ");
    s.append(sha);
    s.append(".");
    s
}

/// The outcome of a cherry-pick: it failed when the index is left with
/// conflicts (`has_conflicts`), listing the conflicted paths that the caller
/// found, possibly none; otherwise it succeeded.
pub fn cherry_pick_outcome(has_conflicts: bool, conflicts: Vec<String>) -> (r: CherryPickResult)
    ensures
        r.success == !has_conflicts,
        r.conflicts@ == conflicts@,
        r.message@ == if has_conflicts {
            "체리픽 중 충돌이 발생했습니다: "@ + decimal_of(conflicts.len() as nat) + " 개 파일"@
        } else {
            "체리픽이 성공적으로 완료되었습니다"@
        },
{
    if has_conflicts {
        let mut m = String::from_str("체리픽 중 충돌이 발생했습니다: ");
        m.append(decimal(conflicts.len()).as_str());
        m.append(" 개 파일");
        CherryPickResult { success: false, conflicts, message: m }
    } else {
        CherryPickResult { success: true, conflicts, message: String::from_str("체리픽이 성공적으로 완료되었습니다") }
    }
}

/// The outcome of a revert: it failed when the index is left with
/// conflicts (`has_conflicts`), listing the conflicted paths that the caller
/// found, possibly none; otherwise it succeeded.
pub fn revert_outcome(has_conflicts: bool, conflicts: Vec<String>) -> (r: RevertResult)
    ensures
        r.success == !has_conflicts,
        r.conflicts@ == conflicts@,
        r.message@ == if has_conflicts {
            "리버트 중 충돌이 발생했습니다: "@ + decimal_of(conflicts.len() as nat) + " 개 파일"@
        } else {
            "리버트가 성공적으로 완료되었습니다"@
        },
{
    if has_conflicts {
        let mut m = String::from_str("리버트 중 충돌이 발생했습니다: ");
        m.append(decimal(conflicts.len()).as_str());
        m.append(" 개 파일");
        RevertResult { success: false, conflicts, message: m }
    } else {
        RevertResult { success: true, conflicts, message: String::from_str("리버트가 성공적으로 완료되었습니다") }
    }
}

/// The outcome of a rebase, from the problems met while applying its
/// operations.
pub fn rebase_outcome(problems: Vec<String>) -> (r: RebaseResult)
    ensures
        r.success == (problems.len() == 0),
        r.conflicts@ == problems@,
        r.message@ == if problems.len() == 0 {
            "Rebase가 성공적으로 완료되었습니다"@
        } else {
            "Rebase 중 충돌이 발생했습니다"@
        },
{
    if problems.len() == 0 {
        RebaseResult {
            success: true,
            conflicts: problems,
            message: String::from_str("Rebase가 성공적으로 완료되었습니다"),
        }
    } else {
        RebaseResult {
            success: false,
            conflicts: problems,
            message: String::from_str("Rebase 중 충돌이 발생했습니다"),
        }
    }
}

/// What one step of a rebase reported: the operation was applied and its
/// commit recorded, applied but its commit failed, or not applied.
#[derive(Debug, Clone)]
pub enum RebaseStep {
    Committed,
    CommitFailed(String),
    Failed(String),
}

/// Records one step of a rebase among the problems met so far, and tells
/// whether the rebase goes on: a failed commit is noted and the rebase
/// continues; a failed operation is noted and the rebase stops.
pub fn record_rebase_step(problems: &mut Vec<String>, step: RebaseStep) -> (go_on: bool)
    ensures
        match step {
            RebaseStep::Committed => go_on && final(problems)@ == old(problems)@,
            RebaseStep::CommitFailed(e) => go_on && final(problems)@.len() == old(problems)@.len() + 1
                && final(problems)@.drop_last() == old(problems)@
                && final(problems)@.last()@ == "커밋 중 오류: "@ + e@,
            RebaseStep::Failed(e) => !go_on && final(problems)@.len() == old(problems)@.len() + 1
                && final(problems)@.drop_last() == old(problems)@
                && final(problems)@.last()@ == "Rebase 작업 실패: "@ + e@,
        },
{
    match step {
        RebaseStep::Committed => true,
        RebaseStep::CommitFailed(e) => {
            let mut m = String::from_str("커밋 중 오류: ");
            m.append(e.as_str());
            problems.push(m);
            proof {
                assert(final(problems)@.drop_last() =~= old(problems)@);
            }
            true
        },
        RebaseStep::Failed(e) => {
            let mut m = String::from_str("Rebase 작업 실패: ");
            m.append(e.as_str());
            problems.push(m);
            proof {
                assert(final(problems)@.drop_last() =~= old(problems)@);
            }
            false
        },
    }
}

/// Which conflict a resolution by one side applies to: the first whose
/// path on that side (`side_paths[i]`, `None` where the side is missing or
/// could not be read) is `file_path`.
pub fn conflict_side_index(side_paths: &Vec<Option<String>>, file_path: &str) -> (r: Result<usize, String>)
    ensures
        match r {
            Ok(i) => i < side_paths@.len() && (side_paths@[i as int] matches Some(p) && p@ == file_path@)
                && forall|k: int| 0 <= k < i ==> !(#[trigger] side_paths@[k] matches Some(p) && p@ == file_path@),
            Err(e) => e@ == "충돌 파일을 찾을 수 없습니다"@ && forall|k: int| 0 <= k < side_paths@.len() ==> !(
                #[trigger] side_paths@[k] matches Some(p) && p@ == file_path@),
        },
{
    let target = String::from_str(file_path);
    let mut i: usize = 0;
    while i < side_paths.len()
        invariant
            i <= side_paths@.len(),
            target@ == file_path@,
            forall|k: int| 0 <= k < i ==> !(#[trigger] side_paths@[k] matches Some(p) && p@ == file_path@),
        decreases side_paths.len() - i,
    {
        match &side_paths[i] {
            Some(p) => {
                if *p == target {
                    return Ok(i);
                }
            },
            None => {},
        }
        i = i + 1;
    }
    Err(String::from_str("충돌 파일을 찾을 수 없습니다"))
}

/// The status of a rebase: `progress` holds the current operation and the
/// number of operations of one in progress.
pub fn rebase_info(progress: Option<(usize, usize)>) -> (r: RebaseInfo)
    ensures
        match progress {
            Some((cur, total)) => r.in_progress && r.current_operation == Some(cur)
                && r.total_operations == Some(total),
            None => !r.in_progress && r.current_operation is None && r.total_operations is None,
        },
{
    match progress {
        Some((cur, total)) => RebaseInfo {
            in_progress: true,
            current_operation: Some(cur),
            total_operations: Some(total),
        },
        None => RebaseInfo { in_progress: false, current_operation: None, total_operations: None },
    }
}

} // verus!
