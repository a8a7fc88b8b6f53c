//! The records that the repository commands hand to the user interface.

use vstd::prelude::*;

verus! {

/// Repository metadata returned when a repository is opened.
#[derive(Debug, Clone)]
pub struct RepositoryInfo {
    pub path: String,
    pub name: String,
    pub current_branch: String,
    pub remote_url: Option<String>,
}

/// A single commit of the repository history.
#[derive(Debug, Clone)]
pub struct CommitInfo {
    pub sha: String,
    pub author: String,
    pub email: String,
    pub message: String,
    pub timestamp: i64,
    pub date: String,
    pub parent_ids: Vec<String>,
}

/// Status of one file in the index or the working tree.
#[derive(Debug, Clone)]
pub struct FileStatus {
    pub path: String,
    pub status: String,
    pub staged: bool,
}

/// A recently opened repository, as kept in the client's settings.
#[derive(Debug, Clone)]
pub struct RecentRepo {
    pub path: String,
    pub name: String,
    pub last_opened: i64,
}

/// A local or remote branch.
#[derive(Debug, Clone)]
pub struct BranchInfo {
    pub name: String,
    pub is_current: bool,
    pub is_remote: bool,
    pub commit_sha: String,
    pub commit_message: String,
    pub author: String,
    pub timestamp: i64,
}

/// Per-file diff statistics.
#[derive(Debug, Clone)]
pub struct DiffStat {
    pub file_path: String,
    pub additions: u32,
    pub deletions: u32,
    pub is_binary: bool,
}

/// Base64-encoded image content with its metadata; width and height are 0 when they cannot be read.
#[derive(Debug, Clone)]
pub struct ImageData {
    pub data: String,
    pub mime_type: String,
    pub size: u64,
    pub width: u32,
    pub height: u32,
    pub format: String,
}

/// The old and new versions of an image file.
#[derive(Debug, Clone)]
pub struct ImageDiffResult {
    pub old_image: Option<ImageData>,
    pub new_image: Option<ImageData>,
    pub is_image: bool,
    pub file_path: String,
}

/// A configured remote.
#[derive(Debug, Clone)]
pub struct RemoteInfo {
    pub name: String,
    pub url: String,
    pub fetch_url: String,
    pub push_url: String,
}

/// A branch of a remote.
#[derive(Debug, Clone)]
pub struct RemoteBranchInfo {
    pub name: String,
    pub full_name: String,
    pub commit_sha: String,
    pub commit_message: String,
    pub is_head: bool,
}

/// Progress of a fetch, pull or push; `phase` is "idle", "fetching", "pulling" or "pushing".
#[derive(Debug, Clone)]
pub struct SyncProgress {
    pub phase: String,
    pub current: u32,
    pub total: u32,
    pub bytes: u64,
    pub message: String,
}

/// A conflicted file with the content of each side.
#[derive(Debug, Clone)]
pub struct ConflictFile {
    pub path: String,
    pub our_content: Option<String>,
    pub their_content: Option<String>,
    pub base_content: Option<String>,
}

/// Summary of a merge in conflict.
#[derive(Debug, Clone)]
pub struct ConflictInfo {
    pub files: Vec<ConflictFile>,
    pub merge_head: Option<String>,
    pub merge_msg: Option<String>,
}

/// Outcome of a cherry-pick.
#[derive(Debug, Clone)]
pub struct CherryPickResult {
    pub success: bool,
    pub conflicts: Vec<String>,
    pub message: String,
}

/// Outcome of a revert.
#[derive(Debug, Clone)]
pub struct RevertResult {
    pub success: bool,
    pub conflicts: Vec<String>,
    pub message: String,
}

/// Whether a rebase is in progress, and how far it has got.
#[derive(Debug, Clone)]
pub struct RebaseInfo {
    pub in_progress: bool,
    pub current_operation: Option<usize>,
    pub total_operations: Option<usize>,
}

/// Outcome of a rebase.
#[derive(Debug, Clone)]
pub struct RebaseResult {
    pub success: bool,
    pub conflicts: Vec<String>,
    pub message: String,
}

/// A stash entry.
#[derive(Debug, Clone)]
pub struct StashInfo {
    pub index: usize,
    pub message: String,
    pub oid: String,
}

/// A lightweight or annotated tag.
#[derive(Debug, Clone)]
pub struct TagInfo {
    pub name: String,
    pub target: String,
    pub message: Option<String>,
    pub tagger: Option<String>,
    pub date: Option<i64>,
}

/// One commit in the history of a file; `changes` is "added", "modified", "deleted", "renamed" or "unknown".
#[derive(Debug, Clone)]
pub struct FileHistoryEntry {
    pub commit_sha: String,
    pub message: String,
    pub author: String,
    pub date: i64,
    pub changes: String,
    pub old_path: Option<String>,
}

/// A reflog entry.
#[derive(Debug, Clone)]
pub struct ReflogEntry {
    pub index: usize,
    pub old_oid: String,
    pub new_oid: String,
    pub message: String,
    pub committer: String,
    pub timestamp: i64,
}

/// Outcome of writing a bundle file.
#[derive(Debug, Clone)]
pub struct BundleCreateResult {
    pub success: bool,
    pub output_path: String,
    pub message: String,
    pub file_size: u64,
}

/// Outcome of checking a bundle file, with the refs it holds.
#[derive(Debug, Clone)]
pub struct BundleVerifyResult {
    pub valid: bool,
    pub message: String,
    pub refs: Vec<String>,
}

/// A ref that can be put in a bundle; `ref_type` is "branch" or "tag".
#[derive(Debug, Clone)]
pub struct BundleRefInfo {
    pub name: String,
    pub commit_sha: String,
    pub ref_type: String,
}

impl SyncProgress {
    /// No sync under way.
    pub fn idle() -> (r: SyncProgress)
        ensures
            r.phase@ == "idle"@,
            r.current == 0,
            r.total == 0,
            r.bytes == 0,
            r.message@.len() == 0,
    {
        SyncProgress {
            phase: String::from_str("idle"),
            current: 0,
            total: 0,
            bytes: 0,
            message: String::new(),
        }
    }

    /// A sync enters `phase` ("fetching", "pulling" or "pushing"); the
    /// counters stay as they are.
    pub fn begin(&mut self, phase: &str, message: String)
        ensures
            final(self).phase@ == phase@,
            final(self).message@ == message@,
            final(self).current == old(self).current,
            final(self).total == old(self).total,
            final(self).bytes == old(self).bytes,
    {
        self.phase = String::from_str(phase);
        self.message = message;
    }

    /// The engine reported how far a transfer has got.
    pub fn record_transfer(&mut self, current: u32, total: u32, bytes: u64)
        ensures
            final(self).current == current,
            final(self).total == total,
            final(self).bytes == bytes,
            final(self).phase@ == old(self).phase@,
            final(self).message@ == old(self).message@,
    {
        self.current = current;
        self.total = total;
        self.bytes = bytes;
    }

    /// The sync is over; the counters keep their last values.
    pub fn finish(&mut self, message: String)
        ensures
            final(self).phase@ == "idle"@,
            final(self).message@ == message@,
            final(self).current == old(self).current,
            final(self).total == old(self).total,
            final(self).bytes == old(self).bytes,
    {
        self.phase = String::from_str("idle");
        self.message = message;
    }
}

} // verus!
